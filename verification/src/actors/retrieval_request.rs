//! The signed request of an owner for a recording of their own.
use vstd::prelude::*;
use vstd::string::*;
use crate::crypto;
use crate::identity;

verus! {

/// Failure cases of [`build_recording_request`].
#[derive(Debug)]
pub enum BuildRequestError {
    /// Sealing the locator failed.
    SealFailed(String),
    /// The locator could not be serialized.
    SerializeFailed(String),
}

impl BuildRequestError {
    /// The failure in words.
    pub fn message(&self) -> (m: String)
        ensures
            m@ == match *self {
                BuildRequestError::SealFailed(s) => "SealedLocator seal failed: "@ + s@,
                BuildRequestError::SerializeFailed(s) => "Request serialization failed: "@ + s@,
            },
    {
        match self {
            BuildRequestError::SealFailed(s) => {
                crate::text::join("SealedLocator seal failed: ", s.as_str())
            },
            BuildRequestError::SerializeFailed(s) => {
                crate::text::join("Request serialization failed: ", s.as_str())
            },
        }
    }
}

/// A request for a recording. The locator is kept in its serialized form.
#[derive(Debug)]
pub struct RecordingRequest {
    pub target_did: String,
    pub recording_id: String,
    pub locator: Vec<u8>,
    pub signature: Vec<u8>,
}

impl RecordingRequest {
    /// What the request is signed over.
    pub open spec fn signed_message(self) -> Seq<u8> {
        identity::request_message(self.target_did@, self.recording_id@, self.locator@)
    }

    /// The request carries the signature of this secret key.
    pub open spec fn is_signed_with(self, secret: Seq<u8>) -> bool {
        &&& self.signature@ == crypto::ed25519_signature(secret, self.signed_message())
        &&& self.signature@.len() == 64
        &&& crypto::ed25519_verifies(
            crypto::ed25519_public_key(secret),
            self.signed_message(),
            self.signature@,
        )
    }
}

/// The locator of a request on its way into it: sealed, then serialized. Either
/// step can fail.
#[derive(Debug)]
pub enum SealedLocator {
    SealFailed(String),
    SerializeFailed(String),
    Ready(Vec<u8>),
}

/// `request` is what is built from a locator.
pub open spec fn is_built(
    recording_id: Seq<char>,
    locator: SealedLocator,
    did: Seq<char>,
    signing_secret: Seq<u8>,
    request: Result<RecordingRequest, BuildRequestError>,
) -> bool {
    match locator {
        SealedLocator::SealFailed(s) => request matches Err(BuildRequestError::SealFailed(m)) && m
            == s,
        SealedLocator::SerializeFailed(s) => request matches Err(
            BuildRequestError::SerializeFailed(m),
        ) && m == s,
        SealedLocator::Ready(bytes) => request matches Ok(r) && {
            &&& r.target_did@ == did
            &&& r.recording_id@ == recording_id
            &&& r.locator@ == bytes@
            &&& r.is_signed_with(signing_secret)
        },
    }
}

/// A locator that is ready always makes a request, for the owner and the recording
/// that were given, and what is signed is the owner, the recording and the locator
/// of that very request.
pub proof fn law_ready_locators_make_requests(
    recording_id: Seq<char>,
    locator: SealedLocator,
    did: Seq<char>,
    signing_secret: Seq<u8>,
    request: Result<RecordingRequest, BuildRequestError>,
)
    requires
        is_built(recording_id, locator, did, signing_secret, request),
    ensures
        request is Ok <==> locator is Ready,
        request matches Ok(r) ==> {
            &&& r.target_did@ == did
            &&& r.recording_id@ == recording_id
            &&& r.locator@ == (locator->Ready_0)@
            &&& crypto::ed25519_verifies(
                crypto::ed25519_public_key(signing_secret),
                identity::request_message(did, recording_id, r.locator@),
                r.signature@,
            )
        },
{
}

/// Builds the request of an owner, signed with the owner's key over owner,
/// recording and locator.
pub fn build_recording_request(
    recording_id: &String,
    locator: SealedLocator,
    did: &String,
    signing_secret: &[u8; 32],
) -> (request: Result<RecordingRequest, BuildRequestError>)
    ensures
        is_built(recording_id@, locator, did@, signing_secret@, request),
{
    match locator {
        SealedLocator::SealFailed(s) => Err(BuildRequestError::SealFailed(s)),
        SealedLocator::SerializeFailed(s) => Err(BuildRequestError::SerializeFailed(s)),
        SealedLocator::Ready(bytes) => {
            let message = identity::build_request_message(did, recording_id, bytes.as_slice());
            let signed = crypto::sign_message(signing_secret, message.as_slice());
            let mut signature: Vec<u8> = Vec::new();
            crate::bytes::extend(&mut signature, signed.as_slice());
            assert(signature@ =~= signed@);
            Ok(
                RecordingRequest {
                    target_did: did.clone(),
                    recording_id: recording_id.clone(),
                    locator: bytes,
                    signature,
                },
            )
        },
    }
}

/// What the builder makes is what a peer's privacy gate accepts: a request signed
/// with the keys of an identity passes the check of any peer that resolves the
/// requester's name to the identity's public key.
pub proof fn law_built_request_is_accepted(
    request: RecordingRequest,
    keys: identity::IdentityKeys,
    phrase: Seq<char>,
)
    requires
        identity::keys_of_phrase(keys, phrase),
        request.is_signed_with(keys.signing_secret@),
    ensures
        identity::retrieval_fault(
            Some(keys.public_key@),
            request.signed_message(),
            request.signature@,
        ) is None,
{
}

} // verus!
