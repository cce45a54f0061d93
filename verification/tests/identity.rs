use ed25519_dalek::{Signer, SigningKey};
use phalanx_node::actors::retrieval::{
    RecordingResponse, RetrievalActor, RetrievalLoad, SealVerdict,
};
use phalanx_node::actors::retrieval_request::{
    build_recording_request, BuildRequestError, RecordingRequest, SealedLocator,
};
use phalanx_node::evidence::Offense;
use phalanx_node::identity::{
    generate_drawn, describe_unseal_error, generate, generate_from, keys_from_seed, restore,
    revocation_signing_key, seed_from_phrase, verify_retrieval_auth, IdentityError, UnsealError,
    BIP39_PASSPHRASE_V1,
};
use phalanx_node::persistence::vault::crypto::{
    derive_vault_key, exactly_32, new_vault_salt, open_encrypted_file, parse_vault_salt,
};

const ZERO_PHRASE: &str = "abandon abandon abandon abandon abandon abandon abandon abandon \
                           abandon abandon abandon about";

#[test]
fn zero_entropy_gives_the_well_known_phrase() {
    let (keys, phrase) = generate_from(&[0u8; 16]);
    assert_eq!(phrase, ZERO_PHRASE);
    let seed = bip39::Mnemonic::parse_normalized(ZERO_PHRASE).unwrap().to_seed(BIP39_PASSPHRASE_V1);
    assert_eq!(keys.signing_secret, seed[..32]);
    let signing = SigningKey::from_bytes(&keys.signing_secret);
    assert_eq!(keys.public_key, signing.verifying_key().to_bytes());
    let mut second = [0u8; 32];
    second.copy_from_slice(&seed[32..]);
    assert_eq!(
        keys.revocation_key,
        SigningKey::from_bytes(&second).verifying_key().to_bytes()
    );
}

#[test]
fn phrase_restores_the_same_keys() {
    let (keys, phrase) = generate().unwrap();
    let again = restore(&phrase).unwrap();
    assert_eq!(keys.signing_secret, again.signing_secret);
    assert_eq!(keys.public_key, again.public_key);
    assert_eq!(keys.revocation_key, again.revocation_key);
    assert_eq!(phrase.split(' ').count(), 12);
}

#[test]
fn fresh_identities_differ() {
    let (_, a) = generate().unwrap();
    let (_, b) = generate().unwrap();
    assert_ne!(a, b);
}

#[test]
fn without_entropy_there_is_no_identity() {
    let refused = generate_drawn(Err("no device".to_string()));
    assert!(matches!(refused, Err(IdentityError::EntropyError(m)) if m == "no device"));
    let (_, phrase) = generate_drawn(Ok([0u8; 16])).unwrap();
    assert_eq!(phrase, ZERO_PHRASE);
}

#[test]
fn bad_phrases_are_refused() {
    let words = |e: IdentityError| match e {
        IdentityError::MnemonicError(m) => m,
        other => panic!("expected a mnemonic error, got {other:?}"),
    };
    let of = |phrase: &str| bip39::Mnemonic::parse(phrase).unwrap_err().to_string();
    assert_eq!(restore("not a phrase").err().map(words).unwrap(), of("not a phrase"));
    assert_eq!(seed_from_phrase("").err().map(words).unwrap(), of(""));
    assert_eq!(revocation_signing_key("abandon").err().map(words).unwrap(), of("abandon"));
}

#[test]
fn revocation_secret_matches_the_public_half() {
    let (keys, phrase) = generate_from(&[7u8; 16]);
    let secret = revocation_signing_key(&phrase).unwrap();
    assert_eq!(SigningKey::from_bytes(&secret).verifying_key().to_bytes(), keys.revocation_key);
    assert_ne!(secret, keys.signing_secret);
}

#[test]
fn seed_is_wiped() {
    let mut seed = [5u8; 64];
    let keys = keys_from_seed(&mut seed);
    assert_eq!(seed, [0u8; 64]);
    assert_eq!(keys.signing_secret, [5u8; 32]);
}

fn request(secret: &[u8; 32]) -> RecordingRequest {
    build_recording_request(
        &"rec-1".to_string(),
        SealedLocator::Ready(vec![1, 2, 3]),
        &"did:key:zOwner".to_string(),
        secret,
    )
    .unwrap()
}

#[test]
fn request_is_signed_over_owner_recording_and_locator() {
    let secret = [3u8; 32];
    let r = request(&secret);
    assert_eq!(r.target_did, "did:key:zOwner");
    assert_eq!(r.recording_id, "rec-1");
    assert_eq!(r.locator, vec![1, 2, 3]);
    let mut message = postcard::to_allocvec(&("did:key:zOwner", "rec-1")).unwrap();
    message.extend_from_slice(&[1, 2, 3]);
    assert_eq!(message[0], 14);
    let expected = SigningKey::from_bytes(&secret).sign(&message).to_bytes();
    assert_eq!(r.signature, expected.to_vec());
}

#[test]
fn built_request_is_accepted() {
    let (keys, _) = generate_from(&[1u8; 16]);
    let r = request(&keys.signing_secret);
    let verdict = verify_retrieval_auth(
        Some(keys.public_key),
        &r.target_did,
        &r.recording_id,
        &r.locator,
        &r.signature,
    );
    assert!(verdict.is_ok());
}

fn not_a_point() -> [u8; 32] {
    for low in 0..=255u8 {
        let mut candidate = [0u8; 32];
        candidate[0] = low;
        if ed25519_dalek::VerifyingKey::from_bytes(&candidate).is_err() {
            return candidate;
        }
    }
    unreachable!("about half of all encodings are no points")
}

fn refused(words: &str) -> Result<(), IdentityError> {
    Err(IdentityError::CryptoError(words.to_string()))
}

#[test]
fn each_fault_of_a_request_is_told_apart() {
    let (keys, _) = generate_from(&[1u8; 16]);
    let r = request(&keys.signing_secret);
    let verdict = |key: Option<[u8; 32]>, id: &str, signature: &[u8]| {
        verify_retrieval_auth(key, &r.target_did, &id.to_string(), &r.locator, signature)
    };
    assert_eq!(verdict(None, "rec-1", &r.signature), refused("DID Resolution Failed"));
    assert_eq!(
        verdict(Some(not_a_point()), "rec-1", &r.signature),
        refused("Invalid Public Key: signature error: Cannot decompress Edwards point")
    );
    assert_eq!(
        verdict(Some(keys.public_key), "rec-1", &r.signature[..63]),
        refused("Invalid Signature: signature error")
    );
    assert_eq!(
        verdict(Some(keys.public_key), "rec-2", &r.signature),
        refused("Signature Verification Failed")
    );
    assert_eq!(verdict(Some(keys.public_key), "rec-1", &r.signature), Ok(()));
}

#[test]
fn failed_locators_are_reported() {
    let build = |locator| {
        build_recording_request(&"r".to_string(), locator, &"d".to_string(), &[0u8; 32])
            .unwrap_err()
    };
    let sealed = build(SealedLocator::SealFailed("no key".into()));
    assert!(matches!(sealed, BuildRequestError::SealFailed(_)));
    assert_eq!(sealed.message(), "SealedLocator seal failed: no key");
    let serialized = build(SealedLocator::SerializeFailed("full".into()));
    assert!(matches!(serialized, BuildRequestError::SerializeFailed(_)));
    assert_eq!(serialized.message(), "Request serialization failed: full");
}

const IDLE: RetrievalLoad = RetrievalLoad { rate_ok: true, io_saturated: false, permitted: true };

#[test]
fn only_authorized_requests_reach_storage() {
    let (keys, _) = generate_from(&[2u8; 16]);
    let r = request(&keys.signing_secret);

    let passed = RetrievalActor::check_retrieval_gates(IDLE, &r, Some(keys.public_key));
    assert!(passed.response.is_none());
    assert!(passed.offense.is_none());

    let forged = RetrievalActor::check_retrieval_gates(IDLE, &r, Some(keys.revocation_key));
    assert!(matches!(forged.response, Some(RecordingResponse::Unauthorized)));
    match forged.offense {
        Some((did, offense)) => {
            assert_eq!(did, "did:key:zOwner");
            assert_eq!(offense, Offense::InvalidSignature);
        }
        None => panic!("a forged request is charged"),
    }
}

#[test]
fn load_is_asked_before_the_signature() {
    let (keys, _) = generate_from(&[2u8; 16]);
    let r = request(&keys.signing_secret);
    let ask = |load| RetrievalActor::check_retrieval_gates(load, &r, None);

    let flooded = ask(RetrievalLoad { rate_ok: false, io_saturated: true, permitted: false });
    assert!(matches!(flooded.response, Some(RecordingResponse::Busy)));
    assert!(!flooded.record_attempt);
    assert!(flooded.offense.is_none());

    let saturated = ask(RetrievalLoad { io_saturated: true, permitted: false, ..IDLE });
    assert!(matches!(saturated.response, Some(RecordingResponse::Busy)));
    assert!(saturated.record_attempt);

    let barred = ask(RetrievalLoad { permitted: false, ..IDLE });
    assert!(matches!(barred.response, Some(RecordingResponse::Unauthorized)));
    assert!(barred.record_attempt);
    assert!(barred.offense.is_none());
}

#[test]
fn corrupt_shards_are_left_out_of_the_answer() {
    let answer = RetrievalActor::respond(vec![
        SealVerdict::Corrupt,
        SealVerdict::Sealed(vec![1]),
        SealVerdict::Sealed(vec![2]),
    ]);
    match answer {
        RecordingResponse::Success(list) => assert_eq!(list, vec![vec![1], vec![2]]),
        other => panic!("expected an answer, got {other:?}"),
    }
    assert!(matches!(
        RetrievalActor::respond(vec![SealVerdict::Corrupt]),
        RecordingResponse::NotFound
    ));
    assert!(matches!(RetrievalActor::respond(vec![]), RecordingResponse::NotFound));
    match RetrievalActor::respond(vec![SealVerdict::Denied, SealVerdict::Sealed(vec![1])]) {
        RecordingResponse::Success(list) => assert_eq!(list, vec![vec![1]]),
        other => panic!("one shard is left, got {other:?}"),
    }
}

#[test]
fn failed_decryption_is_explained() {
    match describe_unseal_error(UnsealError::Crypto("aead".into())) {
        UnsealError::Crypto(m) => assert_eq!(
            m,
            "Failed to decrypt identity. Incorrect passphrase or corrupt file."
        ),
        other => panic!("still a decryption failure, got {other:?}"),
    }
    match describe_unseal_error(UnsealError::Other("schema 2".into())) {
        UnsealError::Other(m) => assert_eq!(m, "schema 2"),
        other => panic!("passed on as it is, got {other:?}"),
    }
}

#[test]
fn vault_key_is_derived_from_secret_and_salt() {
    let secret = [1u8; 32];
    let salt = [2u8; 32];
    let mut material = secret.to_vec();
    material.extend_from_slice(&salt);
    assert_eq!(
        derive_vault_key(&secret, &salt),
        blake3::derive_key("phalanx.vault.v1.disk-encryption", &material)
    );
    assert_ne!(derive_vault_key(&secret, &salt), derive_vault_key(&salt, &secret));
}

#[test]
fn salt_has_thirty_two_bytes() {
    assert_eq!(parse_vault_salt(&[4u8; 32]), Ok([4u8; 32]));
    assert_eq!(parse_vault_salt(&[4u8; 31]), Err("Vault salt file is not 32 bytes".to_string()));
    assert_eq!(exactly_32(&[4u8; 33]), None);
    assert_ne!(new_vault_salt().unwrap(), new_vault_salt().unwrap());
}

#[test]
fn encrypted_file_starts_with_its_nonce() {
    let mut file = vec![9u8; 24];
    file.extend_from_slice(&[1, 2]);
    let (nonce, ciphertext) = open_encrypted_file(&file).unwrap();
    assert_eq!(nonce, vec![9u8; 24]);
    assert_eq!(ciphertext, vec![1, 2]);
    assert!(open_encrypted_file(&file[..23]).is_err());
    assert!(open_encrypted_file(&file[..24]).unwrap().1.is_empty());
}

#[test]
fn signature_covers_every_part_of_the_request() {
    let (keys, _) = generate_from(&[1u8; 16]);
    let r = request(&keys.signing_secret);
    let verdict = |owner: &str, id: &str, locator: &[u8]| {
        let locator = locator.to_vec();
        let (owner, id) = (owner.to_string(), id.to_string());
        verify_retrieval_auth(Some(keys.public_key), &owner, &id, &locator, &r.signature)
    };
    assert_eq!(verdict("did:key:zOwner", "rec-1", &[1, 2, 3]), Ok(()));
    // The same bytes in a row, cut at another place.
    for (owner, id, locator) in [
        ("did:key:zOwne", "rrec-1", vec![1, 2, 3]),
        ("did:key:zOwner", "rec-1\u{1}", vec![2, 3]),
        ("did:key:zOwner", "rec-", vec![b'1', 1, 2, 3]),
    ] {
        assert_eq!(verdict(owner, id, &locator), refused("Signature Verification Failed"));
    }
}
