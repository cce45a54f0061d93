//! The cryptographic primitives that the node has from other crates, each
//! behind one function.
use vstd::prelude::*;
use crate::text;

verus! {

/// The key that BLAKE3 derives in key-derivation mode from `material`, under
/// the hard-coded `context`.
pub uninterp spec fn blake3_derived_key(context: Seq<char>, material: Seq<u8>) -> Seq<u8>;

/// `blake3::derive_key`: a function of the context and the key material alone.
#[verifier::external_body]
pub(crate) fn derive_key(context: &str, material: &[u8]) -> (key: [u8; 32])
    ensures
        key@ == blake3_derived_key(context@, material@),
{
    blake3::derive_key(context, material)
}

/// `zeroize::Zeroize::zeroize` on a key: every byte is overwritten with zero.
#[verifier::external_body]
pub(crate) fn wipe_key(key: &mut [u8; 32])
    ensures
        forall|i: int| 0 <= i < 32 ==> #[trigger] final(key)@[i] == 0,
{
    zeroize::Zeroize::zeroize(key)
}

/// `zeroize::Zeroize::zeroize` on a seed: every byte is overwritten with zero.
#[verifier::external_body]
pub(crate) fn wipe_seed(seed: &mut [u8; 64])
    ensures
        forall|i: int| 0 <= i < 64 ==> #[trigger] final(seed)@[i] == 0,
{
    zeroize::Zeroize::zeroize(seed)
}

/// `rand_core::OsRng`: thirty-two bytes from the operating system, or nothing
/// where it has none to give. Nothing can be said of the bytes.
#[verifier::external_body]
pub(crate) fn random_key() -> (key: Option<[u8; 32]>) {
    let mut key = [0u8; 32];
    rand_core::RngCore::try_fill_bytes(&mut rand_core::OsRng, &mut key).ok().map(|_| key)
}

/// `rand::rngs::SysRng`: sixteen bytes of entropy from the operating system, or
/// what it says where it has none to give. Nothing can be said of either.
#[verifier::external_body]
pub(crate) fn random_entropy() -> (entropy: Result<[u8; 16], String>) {
    let mut entropy = [0u8; 16];
    match rand::TryRng::try_fill_bytes(&mut rand::rngs::SysRng, &mut entropy) {
        Ok(()) => Ok(entropy),
        Err(e) => Err(e.to_string()),
    }
}

/// The Ed25519 public key of a secret key.
pub uninterp spec fn ed25519_public_key(secret: Seq<u8>) -> Seq<u8>;

/// The Ed25519 signature of a message under a secret key.
pub uninterp spec fn ed25519_signature(secret: Seq<u8>, message: Seq<u8>) -> Seq<u8>;

/// Whether 32 bytes are the encoding of a curve point.
pub uninterp spec fn ed25519_is_point(public_key: Seq<u8>) -> bool;

/// Whether a signature of 64 bytes on a message verifies under a public key.
pub uninterp spec fn ed25519_verifies(
    public_key: Seq<u8>,
    message: Seq<u8>,
    signature: Seq<u8>,
) -> bool;

/// `ed25519_dalek::SigningKey::verifying_key`, on the bytes of the two keys.
/// What it gives is the encoding of a curve point.
#[verifier::external_body]
pub(crate) fn public_key_of(secret: &[u8; 32]) -> (public_key: [u8; 32])
    ensures
        public_key@ == ed25519_public_key(secret@),
        ed25519_is_point(public_key@),
{
    ed25519_dalek::SigningKey::from_bytes(secret).verifying_key().to_bytes()
}

/// `ed25519_dalek::Signer::sign`, on the bytes of the secret key. Signing is
/// deterministic, and the signature verifies under the key's public half.
#[verifier::external_body]
pub(crate) fn sign_message(secret: &[u8; 32], message: &[u8]) -> (signature: [u8; 64])
    ensures
        signature@ == ed25519_signature(secret@, message@),
        ed25519_verifies(ed25519_public_key(secret@), message@, signature@),
{
    let key = ed25519_dalek::SigningKey::from_bytes(secret);
    ed25519_dalek::Signer::sign(&key, message).to_bytes()
}

/// `ed25519_dalek::VerifyingKey::from_bytes`: whether the bytes decode to a
/// point, and the words of its error where they do not.
#[verifier::external_body]
pub(crate) fn check_point(public_key: &[u8; 32]) -> (checked: Result<(), String>)
    ensures
        match checked {
            Ok(()) => ed25519_is_point(public_key@),
            Err(e) => !ed25519_is_point(public_key@) && e@
                == "signature error: Cannot decompress Edwards point"@,
        },
{
    match ed25519_dalek::VerifyingKey::from_bytes(public_key) {
        Ok(_) => Ok(()),
        Err(e) => Err(e.to_string()),
    }
}

/// `ed25519_dalek::Signature::from_slice`: the bytes as they are where there are
/// sixty-four of them, else the words of its error.
#[verifier::external_body]
pub(crate) fn parse_signature(signature: &[u8]) -> (parsed: Result<[u8; 64], String>)
    ensures
        match parsed {
            Ok(s) => s@ == signature@,
            Err(e) => signature@.len() != 64 && e@ == "signature error"@,
        },
{
    match ed25519_dalek::Signature::from_slice(signature) {
        Ok(s) => Ok(s.to_bytes()),
        Err(e) => Err(e.to_string()),
    }
}

/// `ed25519_dalek::Verifier::verify`, on the bytes of key and signature. No
/// signature verifies under bytes that are not a point.
#[verifier::external_body]
pub(crate) fn verify_message(public_key: &[u8; 32], message: &[u8], signature: &[u8; 64]) -> (ok:
    bool)
    ensures
        ok == (ed25519_is_point(public_key@) && ed25519_verifies(
            public_key@,
            message@,
            signature@,
        )),
{
    let signature = ed25519_dalek::Signature::from_bytes(signature);
    match ed25519_dalek::VerifyingKey::from_bytes(public_key) {
        Ok(key) => ed25519_dalek::Verifier::verify(&key, message, &signature).is_ok(),
        Err(_) => false,
    }
}

/// The English BIP39 phrase of an entropy.
pub uninterp spec fn bip39_phrase(entropy: Seq<u8>) -> Seq<char>;

/// The BIP39 seed of a phrase under a passphrase, or, where the phrase is not a
/// valid one, the words that say why.
pub uninterp spec fn bip39_seed(phrase: Seq<char>, passphrase: Seq<char>) -> Result<
    Seq<u8>,
    Seq<char>,
>;

/// `phrase` is made of `n` words with a space between them. A word has no space in it.
pub open spec fn is_made_of_words(phrase: Seq<char>, n: nat) -> bool {
    exists|words: Seq<Seq<char>>|
        {
            &&& words.len() == n
            &&& phrase == #[trigger] text::joined(words, " "@)
            &&& forall|i: int|
                0 <= i < n ==> (#[trigger] words[i]).len() > 0 && !words[i].contains(' ')
        }
}

/// `bip39::Mnemonic::from_entropy`, written out. Sixteen bytes are an admissible
/// entropy, so there is a phrase, of twelve words, and that phrase parses again.
#[verifier::external_body]
pub(crate) fn phrase_of_entropy(entropy: &[u8; 16]) -> (phrase: String)
    ensures
        phrase@ == bip39_phrase(entropy@),
        is_made_of_words(phrase@, 12),
        forall|p: Seq<char>| #[trigger] bip39_seed(phrase@, p) is Ok,
{
    bip39::Mnemonic::from_entropy(entropy).unwrap().to_string()
}

/// `bip39::Mnemonic::parse` and `to_seed`: the seed of a phrase, or the words of
/// the error where the phrase has an unknown word, a wrong length or a wrong
/// checksum.
#[verifier::external_body]
pub(crate) fn seed_of_phrase(phrase: &str, passphrase: &str) -> (seed: Result<[u8; 64], String>)
    ensures
        match seed {
            Ok(s) => bip39_seed(phrase@, passphrase@) == Ok::<Seq<u8>, Seq<char>>(s@),
            Err(e) => bip39_seed(phrase@, passphrase@) == Err::<Seq<u8>, Seq<char>>(e@),
        },
{
    match bip39::Mnemonic::parse(phrase) {
        Ok(m) => Ok(m.to_seed(passphrase)),
        Err(e) => Err(e.to_string()),
    }
}

} // verus!
