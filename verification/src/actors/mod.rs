//! The rules of the node's actors, one module per actor.
pub mod archive_coordinator;
pub mod archive_grant;
pub mod canary_supervisor;
pub mod eclipse_router;
pub mod egress;
pub mod fleet;
pub mod ingestion;
pub mod ingress;
pub mod media_egress;
pub mod mesh_policy;
pub mod meshsentinel;
pub mod playback;
pub mod recording_session;
pub mod recovery;
pub mod retrieval;
pub mod retrieval_request;
pub mod revocation;
pub mod shutdown;
pub mod storage;
pub mod trust_actor;
pub mod trust_manager;
pub mod vitals_actor;
