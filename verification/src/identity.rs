//! The node's identity: two key pairs out of one recovery phrase, and the proof
//! that a request for a recording comes from its owner.
use vstd::prelude::*;
use crate::crypto;
use crate::text;
use crate::wire;

verus! {

/// The passphrase of every derivation. Changing it would fork all identities.
pub const BIP39_PASSPHRASE_V1: &'static str = "";

/// Why an identity could not be made, restored or believed.
#[derive(Debug, PartialEq, Eq)]
pub enum IdentityError {
    /// There was no entropy to make an identity of, for the reason given.
    EntropyError(String),
    /// The phrase is not a valid recovery phrase, for the reason given.
    MnemonicError(String),
    /// A key or a signature was not accepted, as described.
    CryptoError(String),
}

impl IdentityError {
    pub open spec fn is_mnemonic_error(&self, words: Seq<char>) -> bool {
        self matches IdentityError::MnemonicError(m) && m@ == words
    }

    pub open spec fn is_crypto_error(&self, words: Seq<char>) -> bool {
        self matches IdentityError::CryptoError(m) && m@ == words
    }
}

/// The keys of an identity. The secret half of the revocation key is not among
/// them: it is derived from the phrase when a revocation is signed.
pub struct IdentityKeys {
    pub signing_secret: [u8; 32],
    pub public_key: [u8; 32],
    pub revocation_key: [u8; 32],
}

/// `keys` are the keys of `seed`: the first half signs, the second half revokes.
pub open spec fn keys_of_seed(keys: IdentityKeys, seed: Seq<u8>) -> bool {
    &&& keys.signing_secret@ == seed.subrange(0, 32)
    &&& keys.public_key@ == crypto::ed25519_public_key(seed.subrange(0, 32))
    &&& crypto::ed25519_is_point(keys.public_key@)
    &&& keys.revocation_key@ == crypto::ed25519_public_key(seed.subrange(32, 64))
}

/// `keys` are the keys of the recovery phrase.
pub open spec fn keys_of_phrase(keys: IdentityKeys, phrase: Seq<char>) -> bool {
    match crypto::bip39_seed(phrase, BIP39_PASSPHRASE_V1@) {
        Ok(seed) => keys_of_seed(keys, seed),
        Err(_) => false,
    }
}

/// A recovery phrase names one identity: a phrase that an identity was made with
/// can be restored, and whatever device restores it gets the same keys.
pub proof fn law_phrase_determines_keys(a: IdentityKeys, b: IdentityKeys, phrase: Seq<char>)
    requires
        keys_of_phrase(a, phrase),
        keys_of_phrase(b, phrase),
    ensures
        a.signing_secret@ == b.signing_secret@,
        a.public_key@ == b.public_key@,
        a.revocation_key@ == b.revocation_key@,
        crypto::bip39_seed(phrase, BIP39_PASSPHRASE_V1@) is Ok,
{
}

/// The two halves of a seed have nothing to do with each other: the first signs and
/// gives the public key, the second gives the revocation key alone.
pub proof fn law_halves_of_a_seed_stay_apart(keys: IdentityKeys, seed: Seq<u8>)
    requires
        seed.len() == 64,
        keys_of_seed(keys, seed),
    ensures
        keys.signing_secret@ == seed.take(32),
        keys.public_key@ == crypto::ed25519_public_key(seed.take(32)),
        keys.revocation_key@ == crypto::ed25519_public_key(seed.skip(32)),
{
    assert(seed.take(32) =~= seed.subrange(0, 32));
    assert(seed.skip(32) =~= seed.subrange(32, 64));
}

fn half(seed: &[u8; 64], from: usize) -> (part: [u8; 32])
    requires
        from + 32 <= 64,
    ensures
        part@ == seed@.subrange(from as int, from + 32),
{
    let mut part: [u8; 32] = [0u8; 32];
    let mut i: usize = 0;
    while i < 32
        invariant
            i <= 32,
            from + 32 <= 64,
            forall|j: int| 0 <= j < i ==> part@[j] == seed@[from + j],
        decreases 32 - i,
    {
        part[i] = seed[from + i];
        i += 1;
    }
    assert(part@ =~= seed@.subrange(from as int, from + 32));
    part
}

/// Splits a seed into the keys of an identity and wipes it.
pub fn keys_from_seed(seed: &mut [u8; 64]) -> (keys: IdentityKeys)
    ensures
        keys_of_seed(keys, old(seed)@),
        forall|i: int| 0 <= i < 64 ==> #[trigger] final(seed)@[i] == 0,
{
    let signing_secret = half(seed, 0);
    let mut revocation_secret = half(seed, 32);
    let public_key = crypto::public_key_of(&signing_secret);
    let revocation_key = crypto::public_key_of(&revocation_secret);
    crypto::wipe_key(&mut revocation_secret);
    crypto::wipe_seed(seed);
    IdentityKeys { signing_secret, public_key, revocation_key }
}

/// The seed of a recovery phrase.
pub fn seed_from_phrase(phrase: &str) -> (seed: Result<[u8; 64], IdentityError>)
    ensures
        match crypto::bip39_seed(phrase@, BIP39_PASSPHRASE_V1@) {
            Ok(bytes) => seed matches Ok(s) && s@ == bytes,
            Err(words) => seed matches Err(e) && e.is_mnemonic_error(words),
        },
{
    match crypto::seed_of_phrase(phrase, BIP39_PASSPHRASE_V1) {
        Ok(s) => Ok(s),
        Err(words) => Err(IdentityError::MnemonicError(words)),
    }
}

/// The identity of a given entropy, and the phrase of twelve words that restores it.
pub fn generate_from(entropy: &[u8; 16]) -> (made: (IdentityKeys, String))
    ensures
        made.1@ == crypto::bip39_phrase(entropy@),
        crypto::is_made_of_words(made.1@, 12),
        keys_of_phrase(made.0, made.1@),
{
    let phrase = crypto::phrase_of_entropy(entropy);
    match crypto::seed_of_phrase(phrase.as_str(), BIP39_PASSPHRASE_V1) {
        Ok(mut seed) => {
            let keys = keys_from_seed(&mut seed);
            (keys, phrase)
        },
        Err(_) => {
            assert(crypto::bip39_seed(phrase@, BIP39_PASSPHRASE_V1@) is Ok);
            vstd::pervasive::unreached()
        },
    }
}

/// The identity of the entropy that was drawn, with its phrase. Where none could
/// be drawn there is no identity, for the reason that came with it.
pub fn generate_drawn(drawn: Result<[u8; 16], String>) -> (made: Result<
    (IdentityKeys, String),
    IdentityError,
>)
    ensures
        match drawn {
            Ok(entropy) => made matches Ok(m) && {
                &&& m.1@ == crypto::bip39_phrase(entropy@)
                &&& crypto::is_made_of_words(m.1@, 12)
                &&& keys_of_phrase(m.0, m.1@)
            },
            Err(reason) => made == Err::<(IdentityKeys, String), IdentityError>(
                IdentityError::EntropyError(reason),
            ),
        },
{
    match drawn {
        Ok(entropy) => Ok(generate_from(&entropy)),
        Err(reason) => Err(IdentityError::EntropyError(reason)),
    }
}

/// A new identity from fresh entropy, and the phrase of twelve words that
/// restores it. There is none only where the system has no entropy.
pub fn generate() -> (made: Result<(IdentityKeys, String), IdentityError>)
    ensures
        match made {
            Ok(m) => {
                &&& keys_of_phrase(m.0, m.1@)
                &&& crypto::is_made_of_words(m.1@, 12)
                &&& exists|entropy: Seq<u8>|
                    entropy.len() == 16 && m.1@ == #[trigger] crypto::bip39_phrase(entropy)
            },
            Err(e) => e is EntropyError,
        },
{
    let drawn = crypto::random_entropy();
    assert(drawn matches Ok(entropy) ==> entropy@.len() == 16);
    generate_drawn(drawn)
}

/// `keys` is what a recovery phrase restores.
pub open spec fn is_restored(
    phrase: Seq<char>,
    keys: Result<IdentityKeys, IdentityError>,
) -> bool {
    match crypto::bip39_seed(phrase, BIP39_PASSPHRASE_V1@) {
        Ok(_) => keys matches Ok(k) && keys_of_phrase(k, phrase),
        Err(words) => keys matches Err(e) && e.is_mnemonic_error(words),
    }
}

/// `secret` is the secret half of the revocation key of a phrase.
pub open spec fn is_revocation_secret(
    phrase: Seq<char>,
    secret: Result<[u8; 32], IdentityError>,
) -> bool {
    match crypto::bip39_seed(phrase, BIP39_PASSPHRASE_V1@) {
        Ok(seed) => secret matches Ok(s) && s@ == seed.subrange(32, 64),
        Err(words) => secret matches Err(e) && e.is_mnemonic_error(words),
    }
}

/// The phrase is all that is needed to revoke: wherever it restores an identity it gives
/// the secret that belongs to the identity's revocation key, and where it restores none
/// it gives none.
pub proof fn law_the_phrase_can_revoke(
    phrase: Seq<char>,
    keys: Result<IdentityKeys, IdentityError>,
    secret: Result<[u8; 32], IdentityError>,
)
    requires
        is_restored(phrase, keys),
        is_revocation_secret(phrase, secret),
    ensures
        keys is Ok <==> secret is Ok,
        keys is Ok ==> crypto::ed25519_public_key(secret->Ok_0@) == keys->Ok_0.revocation_key@
            && crypto::ed25519_public_key(keys->Ok_0.signing_secret@) == keys->Ok_0.public_key@,
{
}

/// The identity of a recovery phrase.
pub fn restore(phrase: &str) -> (keys: Result<IdentityKeys, IdentityError>)
    ensures
        is_restored(phrase@, keys),
{
    match seed_from_phrase(phrase) {
        Ok(mut seed) => Ok(keys_from_seed(&mut seed)),
        Err(e) => Err(e),
    }
}

/// The secret half of the revocation key: the second half of the seed. The
/// phrase is the only way to it.
pub fn revocation_signing_key(phrase: &str) -> (secret: Result<[u8; 32], IdentityError>)
    ensures
        is_revocation_secret(phrase@, secret),
{
    match seed_from_phrase(phrase) {
        Ok(mut seed) => {
            let secret = half(&seed, 32);
            crypto::wipe_seed(&mut seed);
            Ok(secret)
        },
        Err(e) => Err(e),
    }
}

/// What a request for a recording is signed over: the owner, the recording and
/// the serialized locator.
pub open spec fn request_message(
    target_did: Seq<char>,
    recording_id: Seq<char>,
    locator: Seq<u8>,
) -> Seq<u8> {
    wire::text_field(target_did) + wire::text_field(recording_id) + locator
}

/// A signature covers the whole request: what is signed for one owner, recording
/// and locator is signed for no other. A request that was altered has to carry a
/// signature over another message.
pub proof fn law_signature_covers_the_request(
    did: Seq<char>,
    recording_id: Seq<char>,
    locator: Seq<u8>,
    other_did: Seq<char>,
    other_recording: Seq<char>,
    other_locator: Seq<u8>,
)
    requires
        request_message(did, recording_id, locator) == request_message(
            other_did,
            other_recording,
            other_locator,
        ),
    ensures
        did == other_did,
        recording_id == other_recording,
        locator == other_locator,
{
    let first = wire::text_field(recording_id) + locator;
    let second = wire::text_field(other_recording) + other_locator;
    assert(request_message(did, recording_id, locator) =~= wire::text_field(did) + first);
    assert(request_message(other_did, other_recording, other_locator) =~= wire::text_field(
        other_did,
    ) + second);
    wire::law_text_field_ends_itself(did, other_did, first, second);
    wire::law_text_field_ends_itself(recording_id, other_recording, locator, other_locator);
}

pub(crate) fn build_request_message(
    target_did: &String,
    recording_id: &String,
    locator: &[u8],
) -> (message: Vec<u8>)
    ensures
        message@ == request_message(target_did@, recording_id@, locator@),
{
    let mut message = wire::encode_text_pair(target_did, recording_id);
    crate::bytes::extend(&mut message, locator);
    message
}

/// What is wrong with a request's signature, if anything, given the key that the
/// requester's name resolved to.
pub open spec fn retrieval_fault(
    resolved_key: Option<Seq<u8>>,
    message: Seq<u8>,
    signature: Seq<u8>,
) -> Option<Seq<char>> {
    match resolved_key {
        None => Some("DID Resolution Failed"@),
        Some(key) => if !crypto::ed25519_is_point(key) {
            Some("Invalid Public Key: "@ + "signature error: Cannot decompress Edwards point"@)
        } else if signature.len() != 64 {
            Some("Invalid Signature: "@ + "signature error"@)
        } else if !crypto::ed25519_verifies(key, message, signature) {
            Some("Signature Verification Failed"@)
        } else {
            None
        },
    }
}

/// A request is believed exactly where its requester has a sound key and the signature
/// has its sixty-four bytes and verifies under that key.
pub proof fn law_sound_requests_are_believed(
    resolved_key: Option<Seq<u8>>,
    message: Seq<u8>,
    signature: Seq<u8>,
)
    ensures
        retrieval_fault(resolved_key, message, signature) is None <==> resolved_key is Some
            && crypto::ed25519_is_point(resolved_key->0) && signature.len() == 64
            && crypto::ed25519_verifies(resolved_key->0, message, signature),
{
}

/// `verdict` is what the check of a request gives.
pub open spec fn is_retrieval_verdict(
    resolved_key: Option<[u8; 32]>,
    target_did: Seq<char>,
    recording_id: Seq<char>,
    locator: Seq<u8>,
    signature: Seq<u8>,
    verdict: Result<(), IdentityError>,
) -> bool {
    match retrieval_fault(
        match resolved_key {
            Some(k) => Some(k@),
            None => None,
        },
        request_message(target_did, recording_id, locator),
        signature,
    ) {
        None => verdict is Ok,
        Some(words) => verdict matches Err(e) && e.is_crypto_error(words),
    }
}

/// A request passes exactly where its signature verifies, under the requester's key, over
/// the owner, the recording and the locator that it names.
pub proof fn law_only_the_signer_gets_the_recording(
    resolved_key: Option<[u8; 32]>,
    target_did: Seq<char>,
    recording_id: Seq<char>,
    locator: Seq<u8>,
    signature: Seq<u8>,
    verdict: Result<(), IdentityError>,
)
    requires
        is_retrieval_verdict(
            resolved_key,
            target_did,
            recording_id,
            locator,
            signature,
            verdict,
        ),
    ensures
        verdict is Ok <==> resolved_key is Some && crypto::ed25519_is_point(resolved_key->0@)
            && signature.len() == 64 && crypto::ed25519_verifies(
            resolved_key->0@,
            request_message(target_did, recording_id, locator),
            signature,
        ),
{
}

/// Checks that a request for a recording was signed by the one that the locator
/// is made out to.
pub fn verify_retrieval_auth(
    resolved_key: Option<[u8; 32]>,
    target_did: &String,
    recording_id: &String,
    locator: &[u8],
    signature: &[u8],
) -> (verdict: Result<(), IdentityError>)
    ensures
        is_retrieval_verdict(
            resolved_key,
            target_did@,
            recording_id@,
            locator@,
            signature@,
            verdict,
        ),
{
    let key: [u8; 32] = match resolved_key {
        None => return Err(IdentityError::CryptoError("DID Resolution Failed".to_owned())),
        Some(key) => key,
    };
    match crypto::check_point(&key) {
        Err(e) => {
            return Err(
                IdentityError::CryptoError(text::join("Invalid Public Key: ", e.as_str())),
            );
        },
        Ok(()) => {},
    }
    let message = build_request_message(target_did, recording_id, locator);
    match crypto::parse_signature(signature) {
        Err(e) => Err(IdentityError::CryptoError(text::join("Invalid Signature: ", e.as_str()))),
        Ok(sig) => if crypto::verify_message(&key, message.as_slice(), &sig) {
            Ok(())
        } else {
            Err(IdentityError::CryptoError("Signature Verification Failed".to_owned()))
        },
    }
}

/// Why a sealed identity file did not open.
#[derive(Debug)]
pub enum UnsealError {
    /// Decryption failed, for the reason given.
    Crypto(String),
    /// The file is of another schema version, or damaged, as described.
    Other(String),
}

/// What the caller is told: a failed decryption is explained by its two likely
/// causes, every other failure is passed on as it is, so that a schema upgrade
/// can be prompted for.
pub fn describe_unseal_error(error: UnsealError) -> (described: UnsealError)
    ensures
        match error {
            UnsealError::Crypto(_) => described matches UnsealError::Crypto(m) && m@
                == "Failed to decrypt identity. Incorrect passphrase or corrupt file."@,
            UnsealError::Other(_) => described == error,
        },
{
    match error {
        UnsealError::Crypto(_) => UnsealError::Crypto(
            "Failed to decrypt identity. Incorrect passphrase or corrupt file.".to_owned(),
        ),
        UnsealError::Other(m) => UnsealError::Other(m),
    }
}

} // verus!
