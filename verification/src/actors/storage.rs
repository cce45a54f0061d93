//! Storage: which chunks are taken in, which shards are written, and what a
//! recording needs before its first shard.
//!
//! A chunk passes admission, is put together with others outside, and comes
//! back as a whole envelope, which is written to disk first and checked after.
use vstd::prelude::*;
use vstd::string::*;
use crate::bytes;
use crate::crypto;
use crate::evidence::{Envelope, GuardianError, ShardError};
use crate::persistence::vault::guardian::{
    AppendPlan, Guardian, PromotionPlan, AVG_ENVELOPE_BYTES,
};
use crate::persistence::vault::metadata::RecordingOptions;
use crate::text;

verus! {

/// How much may be stored.
#[derive(Debug, Clone, Copy, PartialEq, Eq, Structural)]
pub struct StorageLimits {
    pub max_storage_bytes: u64,
    pub max_foreign_storage_bytes: u64,
    pub max_foreign_per_owner_bytes: u64,
}

/// How many shards of each recording the replay filter knows after a start.
pub const REPLAY_SEED_SHARDS: usize = 50;

/// The outcome of the admission of a chunk.
#[derive(Debug, Clone, Copy, PartialEq, Eq, Structural)]
pub enum Admission {
    /// The storage pressure is critical.
    PressureCritical,
    /// The estimate has reached the limit.
    StorageFull,
    /// Foreign data has reached its limit.
    ForeignFull,
    /// The owner has reached the limit of a single owner.
    OwnerFull,
    /// Own data.
    Own,
    /// Foreign data within its limits.
    Foreign,
}

/// What became of a chunk that was handed to the reassembler.
#[derive(Debug)]
pub enum Reassembly {
    /// It completed an envelope. `replayed` tells whether the envelope's
    /// evidence was seen before.
    Complete { envelope: Envelope, replayed: bool },
    /// It was taken; its envelope is still incomplete.
    Partial,
    /// It was refused, as described.
    Failed(String),
}

/// What follows the reassembly of a chunk.
#[derive(Debug)]
pub enum IngestStep {
    /// The chunk is done with, with this outcome.
    Done(Result<(), GuardianError>),
    /// The envelope is to be appended to its log.
    Append(Envelope),
}

/// What follows a shard that reached the disk.
#[derive(Debug)]
pub struct Committed {
    /// The recording to announce to the mesh, if it may be announced.
    pub announce: Option<String>,
    /// How the envelope is now to be checked, or why it is refused after all.
    pub promotion: Result<PromotionPlan, GuardianError>,
}

/// What was asked of storage, with what had to be looked up outside.
#[derive(Debug)]
pub enum StorageCommand {
    Ingest { owner: String, pressure_critical: bool, ttl_ms: u64 },
    Retrieval { recording_id: String },
    GetShard { recording_id: String, sequence_id: u32 },
    WriteShard { envelope: Envelope, owner_dir: String },
    IngestEnvelope { envelope: Envelope, ttl_ms: u64 },
    EmergencySalvage,
    Revoke {
        recording_id: String,
        token_check: Result<(), String>,
        key_check: Option<Result<(), String>>,
    },
    StartRecording { recording_id: String },
    StartRecordingWithOptions { recording_id: String, publishable: bool },
    GetContentKey { recording_id: String, derived: [u8; 32] },
    ListRecordings,
    DebugDeleteRecording { recording_id: String },
    DebugRecordingInfo { recording_id: String },
    DebugVaultListing,
    GetRevocationTokens,
    PersistPosterior,
}

/// What storage does about a command.
#[derive(Debug)]
pub enum StorageAction {
    /// Hand the chunk to the reassembler, then go on with `settle_reassembly`.
    Reassemble { foreign: bool },
    /// Answer.
    Reply(Result<(), GuardianError>),
    /// Read every shard of the recording's log and answer with them.
    ReadLog,
    /// Answer that there is nothing.
    Nothing,
    /// Read the shard at this place and answer with it.
    ReadAt { offset: u64 },
    /// Write the envelope; the keyring is to be stored first where it changed.
    Write { envelope: Envelope, persist_keyring: bool, plan: AppendPlan },
    /// There is no randomness for the key of a foreign recording.
    NoRandomness,
    /// Check and promote the envelope.
    Promote { envelope: Envelope, promotion: PromotionPlan },
    /// Store the pending egress and everything on the workbench.
    Salvage,
    /// Carry out the revocation, beginning with `begin_revocation`.
    Execute,
    /// Store the policy map; then, if so told, catalogue the recording; then
    /// answer with the recording's derived key.
    Start { append_manifest: bool },
    /// Answer that the recording cannot be started.
    StartRefused(ShardError),
    /// Answer with a key.
    Key([u8; 32]),
    /// Answer with the names of recordings.
    Names(Vec<String>),
    /// Remove the log file, if any, store the keyring, then answer.
    Deleted { log_path: Option<String> },
    /// Answer with the number of shards and whether a key is stored.
    Info { shards: usize, has_key: bool },
    /// Answer with a listing of the vault.
    ListVault,
    /// Answer with the stored revocations.
    ReadRevocations,
    /// Store the sensor's posterior.
    WritePosterior,
}

/// The state of the storage actor.
pub struct StorageActor {
    pub guardian: Guardian,
    pub limits: StorageLimits,
    pub current_tolerance_ms: u64,
    /// Someone waits to hear of new shards.
    pub announcing: bool,
}

/// "`label` (`held` >= `limit` bytes)".
pub open spec fn limit_message(label: Seq<char>, held: u64, limit: u64) -> Seq<char> {
    label + " ("@ + text::digits(held as nat) + " >= "@ + text::digits(limit as nat) + " bytes)"@
}

fn limit_text(label: &str, held: u64, limit: u64) -> (m: String)
    ensures
        m@ == limit_message(label@, held, limit),
{
    let mut m = text::join(label, " (");
    let held_text = text::decimal(held);
    m.append(held_text.as_str());
    m.append(" >= ");
    let limit_digits = text::decimal(limit);
    m.append(limit_digits.as_str());
    m.append(" bytes)");
    m
}

fn copied(hash: &Vec<u8>) -> (copy: Vec<u8>)
    ensures
        copy@ == hash@,
{
    let copy = bytes::slice(hash.as_slice(), 0, hash.len());
    assert(copy@ =~= hash@);
    copy
}

impl StorageActor {
    pub open spec fn wf(&self) -> bool {
        self.guardian.wf()
    }

    /// The totals that admission compares fit their type.
    pub open spec fn totals_fit(&self) -> bool {
        &&& self.guardian.workbench_bytes() <= u64::MAX
        &&& self.guardian.ledger.foreign_total() <= u64::MAX
    }

    /// The data of this owner is foreign.
    pub open spec fn is_foreign(&self, owner: Seq<char>) -> bool {
        owner != self.guardian.local_did@
    }

    /// The outcome of admission: the limits are checked in this order.
    pub open spec fn admission(&self, pressure_critical: bool, owner: Seq<char>) -> Admission {
        if pressure_critical {
            Admission::PressureCritical
        } else if self.guardian.workbench_bytes() >= self.limits.max_storage_bytes {
            Admission::StorageFull
        } else if !self.is_foreign(owner) {
            Admission::Own
        } else if self.guardian.ledger.foreign_total() >= self.limits.max_foreign_storage_bytes {
            Admission::ForeignFull
        } else if self.guardian.ledger.owner_total(owner)
            >= self.limits.max_foreign_per_owner_bytes {
            Admission::OwnerFull
        } else {
            Admission::Foreign
        }
    }

    /// The words of a refused admission.
    pub open spec fn refusal(&self, pressure_critical: bool, owner: Seq<char>) -> Seq<char> {
        match self.admission(pressure_critical, owner) {
            Admission::PressureCritical => "Storage pressure critical: WAL near capacity"@,
            Admission::StorageFull => limit_message(
                "P6: Hard storage limit reached"@,
                self.guardian.workbench_bytes() as u64,
                self.limits.max_storage_bytes,
            ),
            Admission::ForeignFull => limit_message(
                "Foreign storage limit reached"@,
                self.guardian.ledger.foreign_total() as u64,
                self.limits.max_foreign_storage_bytes,
            ),
            _ => limit_message(
                "Per-owner foreign quota exceeded for "@ + owner,
                self.guardian.ledger.owner_total(owner),
                self.limits.max_foreign_per_owner_bytes,
            ),
        }
    }

    /// `admitted` is the answer to a chunk.
    pub open spec fn is_admitted(
        &self,
        pressure_critical: bool,
        owner: Seq<char>,
        admitted: Result<bool, GuardianError>,
    ) -> bool {
        match self.admission(pressure_critical, owner) {
            Admission::Own => admitted == Ok::<bool, GuardianError>(false),
            Admission::Foreign => admitted == Ok::<bool, GuardianError>(true),
            _ => admitted matches Err(e) && e.is_storage_failure(
                self.refusal(pressure_critical, owner),
            ),
        }
    }

    /// A chunk is admitted exactly where nothing is full: own evidence below the limit of
    /// the workbench, foreign evidence where, besides, all foreigners and its owner are
    /// below their limits, however much the owner has already.
    pub proof fn law_admission_goes_by_the_limits_alone(
        &self,
        pressure_critical: bool,
        owner: Seq<char>,
        admitted: Result<bool, GuardianError>,
    )
        requires
            self.is_admitted(pressure_critical, owner, admitted),
        ensures
            ({
                let ledger = self.guardian.ledger;
                let counts = ledger.foreign_bytes_by_owner@;
                let of_owner = if counts.dom().contains(owner) {
                    counts[owner]
                } else {
                    0u64
                };
                let room = !pressure_critical && crate::persistence::vault::guardian::total_len(
                    self.guardian.contexts.values(),
                ) * 4096 < self.limits.max_storage_bytes;
                let own = owner == self.guardian.local_did@;
                let foreign_room = ledger.foreign_committed_bytes + ledger.foreign_transient_bytes
                    < self.limits.max_foreign_storage_bytes && of_owner
                    < self.limits.max_foreign_per_owner_bytes;
                &&& admitted is Ok <==> room && (own || foreign_room)
                &&& admitted is Ok ==> (admitted->Ok_0 <==> !own)
                &&& admitted matches Err(e) ==> e is StorageFailure
            }),
    {
    }

    /// Admits a chunk or says why not. Tells whether admitted data is foreign.
    pub fn admit_chunk(&self, pressure_critical: bool, owner: &String) -> (admitted: Result<
        bool,
        GuardianError,
    >)
        requires
            self.wf(),
            self.totals_fit(),
        ensures
            self.is_admitted(pressure_critical, owner@, admitted),
    {
        if pressure_critical {
            return Err(
                GuardianError::StorageFailure(
                    "Storage pressure critical: WAL near capacity".to_owned(),
                ),
            );
        }
        let held: u64 = self.guardian.wal_bytes_estimate();
        if held >= self.limits.max_storage_bytes {
            return Err(
                GuardianError::StorageFailure(
                    limit_text(
                        "P6: Hard storage limit reached",
                        held,
                        self.limits.max_storage_bytes,
                    ),
                ),
            );
        }
        if *owner == self.guardian.local_did {
            return Ok(false);
        }
        let foreign: u64 = self.guardian.ledger.total_foreign_bytes();
        if foreign >= self.limits.max_foreign_storage_bytes {
            return Err(
                GuardianError::StorageFailure(
                    limit_text(
                        "Foreign storage limit reached",
                        foreign,
                        self.limits.max_foreign_storage_bytes,
                    ),
                ),
            );
        }
        let of_owner: u64 = self.guardian.ledger.foreign_bytes_for_owner(owner);
        if of_owner >= self.limits.max_foreign_per_owner_bytes {
            let label = text::join("Per-owner foreign quota exceeded for ", owner.as_str());
            return Err(
                GuardianError::StorageFailure(
                    limit_text(
                        label.as_str(),
                        of_owner,
                        self.limits.max_foreign_per_owner_bytes,
                    ),
                ),
            );
        }
        Ok(true)
    }

    /// The ledger after a chunk was taken: own and foreign bytes are counted apart.
    pub open spec fn counted(before: Self, after: Self, foreign: bool, owner: Seq<char>, bytes: u64)
        -> bool {
        &&& after == (StorageActor {
            guardian: Guardian { ledger: after.guardian.ledger, ..before.guardian },
            ..before
        })
        &&& after.guardian.ledger.foreign_committed_bytes
            == before.guardian.ledger.foreign_committed_bytes
        &&& after.guardian.ledger.own_bytes_pushed == before.guardian.ledger.own_bytes_pushed
        &&& if foreign {
            &&& after.guardian.ledger.own_bytes == before.guardian.ledger.own_bytes
            &&& after.guardian.ledger.foreign_transient_bytes
                == before.guardian.ledger.foreign_transient_bytes + bytes
            &&& after.guardian.ledger.foreign_bytes_by_owner@
                == before.guardian.ledger.foreign_bytes_by_owner@.insert(
                owner,
                (before.guardian.ledger.owner_total(owner) + bytes) as u64,
            )
        } else {
            &&& after.guardian.ledger.own_bytes == before.guardian.ledger.own_bytes + bytes
            &&& after.guardian.ledger.foreign_transient_bytes
                == before.guardian.ledger.foreign_transient_bytes
            &&& after.guardian.ledger.foreign_bytes_by_owner@
                == before.guardian.ledger.foreign_bytes_by_owner@
        }
    }

    /// What the settling of a chunk does.
    pub open spec fn settle_effect(
        before: Self,
        after: Self,
        foreign: bool,
        owner: Seq<char>,
        bytes: u64,
        outcome: Reassembly,
        step: IngestStep,
    ) -> bool {
        match outcome {
            Reassembly::Failed(m) => {
                &&& after == before
                &&& step matches IngestStep::Done(Err(e)) && e.is_verification_failed(m@)
            },
            Reassembly::Partial => {
                &&& Self::counted(before, after, foreign, owner, bytes)
                &&& step == IngestStep::Done(Ok::<(), GuardianError>(()))
            },
            Reassembly::Complete { envelope, replayed } => {
                &&& Self::counted(before, after, foreign, owner, bytes)
                &&& step == if replayed {
                    IngestStep::Done(Err::<(), GuardianError>(GuardianError::ReplayDetected(0)))
                } else {
                    IngestStep::Append(envelope)
                }
            },
        }
    }

    /// A chunk that was taken is counted once: what the vault holds in all grows by
    /// its bytes, and so does the count of its owner where it is foreign, while no
    /// other count moves. A chunk that was refused is not counted.
    pub proof fn law_taken_chunks_are_counted_once(
        before: Self,
        after: Self,
        foreign: bool,
        owner: Seq<char>,
        bytes: u64,
        outcome: Reassembly,
        step: IngestStep,
        other: Seq<char>,
    )
        requires
            before.wf(),
            foreign ==> before.guardian.ledger.foreign_total() + bytes <= u64::MAX,
            Self::settle_effect(before, after, foreign, owner, bytes, outcome, step),
        ensures
            ({
                let old_ledger = before.guardian.ledger;
                let new_ledger = after.guardian.ledger;
                let old_counts = old_ledger.foreign_bytes_by_owner@;
                let new_counts = new_ledger.foreign_bytes_by_owner@;
                let old_count = if old_counts.dom().contains(owner) {
                    old_counts[owner] as int
                } else {
                    0
                };
                let grown = if outcome is Failed {
                    0
                } else {
                    bytes as int
                };
                &&& new_ledger.own_bytes + new_ledger.foreign_committed_bytes
                    + new_ledger.foreign_transient_bytes == old_ledger.own_bytes
                    + old_ledger.foreign_committed_bytes + old_ledger.foreign_transient_bytes
                    + grown
                &&& foreign && !(outcome is Failed) ==> new_counts.dom().contains(owner)
                    && new_counts[owner] == old_count + bytes && new_ledger.own_bytes
                    == old_ledger.own_bytes
                &&& !foreign ==> new_counts == old_counts && new_ledger.own_bytes
                    == old_ledger.own_bytes + grown
                &&& other != owner ==> new_counts.dom().contains(other) == old_counts.dom().contains(
                    other,
                ) && new_counts[other] == old_counts[other]
            }),
    {
        before.guardian.ledger.law_owner_counts_add_up(owner);
    }

    /// An envelope goes on to disk exactly where a chunk completed it and its
    /// evidence is new, and it goes on as it is; evidence that was seen before is
    /// reported as a replay, and what could not be put together as a failed check.
    pub proof fn law_new_envelopes_go_to_disk(
        before: Self,
        after: Self,
        foreign: bool,
        owner: Seq<char>,
        bytes: u64,
        outcome: Reassembly,
        step: IngestStep,
    )
        requires
            Self::settle_effect(before, after, foreign, owner, bytes, outcome, step),
        ensures
            step is Append <==> (outcome matches Reassembly::Complete { replayed, .. }
                && !replayed),
            outcome matches Reassembly::Complete { envelope, replayed } ==> if replayed {
                step matches IngestStep::Done(Err(GuardianError::ReplayDetected(_)))
            } else {
                step == IngestStep::Append(envelope)
            },
            outcome is Partial ==> (step matches IngestStep::Done(Ok(_))),
            outcome matches Reassembly::Failed(words) ==> (step matches IngestStep::Done(
                Err(GuardianError::VerificationFailed(m)),
            ) && m@ == words@),
    {
    }

    /// Settles a chunk after reassembly: every chunk that was taken is counted,
    /// a completed envelope goes on to disk unless its evidence was seen before.
    pub fn settle_reassembly(
        &mut self,
        foreign: bool,
        owner: &String,
        bytes: u64,
        outcome: Reassembly,
    ) -> (step: IngestStep)
        requires
            old(self).wf(),
            foreign ==> old(self).guardian.ledger.foreign_total() + bytes <= u64::MAX,
            !foreign ==> old(self).guardian.ledger.own_bytes + bytes <= u64::MAX,
        ensures
            final(self).wf(),
            Self::settle_effect(*old(self), *final(self), foreign, owner@, bytes, outcome, step),
    {
        match outcome {
            Reassembly::Failed(m) => IngestStep::Done(Err(GuardianError::VerificationFailed(m))),
            taken => {
                if foreign {
                    self.guardian.ledger.record_foreign_ingestion(bytes, owner);
                } else {
                    self.guardian.ledger.record_own_ingestion(bytes);
                }
                match taken {
                    Reassembly::Complete { envelope, replayed } => if replayed {
                        IngestStep::Done(Err(GuardianError::ReplayDetected(0)))
                    } else {
                        IngestStep::Append(envelope)
                    },
                    _ => IngestStep::Done(Ok(())),
                }
            },
        }
    }

    /// The recording to announce after a shard of it was written: only where
    /// someone listens and the recording may be told of.
    pub open spec fn announcement(&self, recording_id: Seq<char>) -> bool {
        self.announcing && self.guardian.recording_metadata.publishable(recording_id)
    }

    /// `id` is what is announced of a recording.
    pub open spec fn is_announced(&self, recording_id: Seq<char>, id: Option<String>) -> bool {
        match id {
            Some(s) => self.announcement(recording_id) && s@ == recording_id,
            None => !self.announcement(recording_id),
        }
    }

    /// Where someone listens every recording is announced, under its own name, but
    /// those whose policy is against it; where nobody does none is.
    pub proof fn law_recordings_are_announced_unless_kept_local(
        &self,
        recording_id: Seq<char>,
        id: Option<String>,
    )
        requires
            self.is_announced(recording_id, id),
        ensures
            ({
                let policies = self.guardian.recording_metadata.map@;
                id is Some <==> self.announcing && (!policies.dom().contains(recording_id)
                    || policies[recording_id].publishable)
            }),
            id is Some ==> id->0@ == recording_id,
    {
    }

    /// The publish gate. A recording that is kept local is never announced.
    pub fn announce(&self, recording_id: &String) -> (id: Option<String>)
        requires
            self.wf(),
        ensures
            self.is_announced(recording_id@, id),
    {
        if self.announcing && self.guardian.is_recording_publishable(recording_id) {
            Some(recording_id.clone())
        } else {
            None
        }
    }

    /// What follows an attempt to append an envelope.
    pub open spec fn append_effect(
        before: Self,
        after: Self,
        envelope: Envelope,
        appended: Result<u64, GuardianError>,
        committed: Result<Committed, GuardianError>,
    ) -> bool {
        let id = envelope.recording_id@;
        let old_logs = before.guardian.recording_logs@;
        let new_logs = after.guardian.recording_logs@;
        &&& after == (StorageActor {
            guardian: Guardian {
                recording_logs: after.guardian.recording_logs,
                ..before.guardian
            },
            ..before
        })
        &&& match appended {
            Err(e) => {
                &&& new_logs == old_logs
                &&& committed == Err::<Committed, GuardianError>(e)
            },
            Ok(offset) => if !old_logs.dom().contains(id) {
                &&& new_logs == old_logs
                &&& committed matches Err(e) && e.is_storage_failure(
                    "recording log missing after insert"@,
                )
            } else {
                &&& new_logs[id].index@ == old_logs[id].index@.insert(envelope.sequence_id, offset)
                &&& new_logs[id].path == old_logs[id].path
                &&& new_logs[id].owner_did == old_logs[id].owner_did
                &&& new_logs.dom() == old_logs.dom()
                &&& forall|other: Seq<char>|
                    other != id && old_logs.dom().contains(other)
                        ==> #[trigger] new_logs[other] == old_logs[other]
                &&& committed matches Ok(c) && {
                    &&& c.announce is Some == before.announcement(id)
                    &&& c.announce matches Some(told) ==> told@ == id
                    &&& before.guardian.promotion_is_planned(
                        envelope,
                        before.current_tolerance_ms,
                        c.promotion,
                    )
                }
            },
        }
    }

    /// A shard that was appended is found at its place from then on, every other
    /// shard where it was, and the mesh hears of the recording exactly where
    /// someone listens and no policy keeps it back, even if the check that follows
    /// fails.
    pub proof fn law_appended_shards_are_found(
        before: Self,
        between: Self,
        after: Self,
        envelope: Envelope,
        offset: u64,
        committed: Result<Committed, GuardianError>,
        recording_id: String,
        sequence_id: u32,
        action: StorageAction,
    )
        requires
            before.guardian.recording_logs@.dom().contains(envelope.recording_id@),
            Self::append_effect(before, between, envelope, Ok(offset), committed),
            Self::command_effect(
                between,
                after,
                StorageCommand::GetShard { recording_id, sequence_id },
                action,
            ),
        ensures
            ({
                let logs = before.guardian.recording_logs@;
                let policies = before.guardian.recording_metadata.map@;
                let id = envelope.recording_id@;
                &&& recording_id@ == id && sequence_id == envelope.sequence_id ==> action
                    == (StorageAction::ReadAt { offset })
                &&& recording_id@ != id || sequence_id != envelope.sequence_id ==> (action is ReadAt
                    <==> logs.dom().contains(recording_id@)
                    && logs[recording_id@].index@.dom().contains(sequence_id)) && (
                action matches StorageAction::ReadAt { offset: there } ==> there
                    == logs[recording_id@].index@[sequence_id])
                &&& committed is Ok
                &&& committed->Ok_0.announce is Some <==> before.announcing && (
                policies.dom().contains(id) ==> policies[id].publishable)
                &&& committed->Ok_0.announce matches Some(told) ==> told@ == id
            }),
    {
    }

    /// A shard that did not reach the disk leaves everything as it was, and its
    /// error is passed on; nothing is announced.
    pub proof fn law_failed_appends_change_nothing(
        before: Self,
        after: Self,
        envelope: Envelope,
        e: GuardianError,
        committed: Result<Committed, GuardianError>,
    )
        requires
            Self::append_effect(before, after, envelope, Err(e), committed),
        ensures
            committed == Err::<Committed, GuardianError>(e),
            after.guardian.recording_logs@ == before.guardian.recording_logs@,
            after.guardian.content_keyring == before.guardian.content_keyring,
            after.guardian.contexts == before.guardian.contexts,
            after.guardian.ledger == before.guardian.ledger,
    {
    }

    /// Goes on after an attempt to append an envelope at the end of its log,
    /// which was at `offset`.
    pub fn after_append(&mut self, envelope: &Envelope, appended: Result<u64, GuardianError>) -> (
        committed: Result<Committed, GuardianError>)
        requires
            old(self).wf(),
        ensures
            final(self).wf(),
            Self::append_effect(*old(self), *final(self), *envelope, appended, committed),
    {
        match appended {
            Err(e) => Err(e),
            Ok(offset) => match self.guardian.note_appended(
                &envelope.recording_id,
                envelope.sequence_id,
                offset,
            ) {
                Err(e) => Err(e),
                Ok(()) => {
                    let announce = self.announce(&envelope.recording_id);
                    let promotion = self.guardian.plan_promotion(
                        envelope,
                        self.current_tolerance_ms,
                    );
                    Ok(Committed { announce, promotion })
                },
            },
        }
    }

    /// `hash` is what the replay filter is to remember.
    pub open spec fn is_remembered(
        envelope: Envelope,
        committed: Result<Committed, GuardianError>,
        hash: Option<Vec<u8>>,
    ) -> bool {
        match hash {
            Some(h) => committed is Ok && h@ == envelope.evidence_hash@,
            None => committed is Err,
        }
    }

    /// Every envelope that reached its log is remembered by its evidence, so that two
    /// envelopes of one evidence are remembered as one; no other is.
    pub proof fn law_written_evidence_is_remembered(
        envelope: Envelope,
        other: Envelope,
        committed: Result<Committed, GuardianError>,
        hash: Option<Vec<u8>>,
        other_hash: Option<Vec<u8>>,
    )
        requires
            Self::is_remembered(envelope, committed, hash),
            Self::is_remembered(other, committed, other_hash),
            other.evidence_hash@ == envelope.evidence_hash@,
        ensures
            hash is Some <==> committed is Ok,
            hash is Some ==> hash->0@ == envelope.evidence_hash@ && other_hash->0@ == hash->0@,
    {
    }

    /// The evidence that the replay filter is to remember after an attempt to
    /// append an envelope: that of the envelope, where it reached its log. It is
    /// remembered before the envelope is checked.
    pub fn to_remember(envelope: &Envelope, committed: &Result<Committed, GuardianError>) -> (hash:
        Option<Vec<u8>>)
        ensures
            Self::is_remembered(*envelope, *committed, hash),
    {
        match committed {
            Ok(_) => Some(copied(&envelope.evidence_hash)),
            Err(_) => None,
        }
    }

    /// `hashes` are what the replay filter is to know of the shards of a recording.
    pub open spec fn are_seeds(shards: Seq<Envelope>, hashes: Seq<Vec<u8>>) -> bool {
        let n = shards.len() as int;
        let from = if n > REPLAY_SEED_SHARDS {
            n - REPLAY_SEED_SHARDS
        } else {
            0
        };
        hashes.map_values(|h: Vec<u8>| h@) == shards.subrange(from, n).map_values(
            |e: Envelope| e.evidence_hash@,
        )
    }

    /// The last fifty shards of a recording are known by their evidence after a start, or
    /// all of them where there are fewer.
    pub proof fn law_the_last_fifty_shards_are_known(
        shards: Seq<Envelope>,
        hashes: Seq<Vec<u8>>,
        back: int,
    )
        requires
            Self::are_seeds(shards, hashes),
            0 < back <= shards.len(),
        ensures
            hashes.len() == vstd::math::min(shards.len() as int, 50),
            back <= 50 ==> hashes[hashes.len() - back]@ == shards[shards.len()
                - back].evidence_hash@,
    {
        let n = shards.len() as int;
        let from = if n > REPLAY_SEED_SHARDS {
            n - REPLAY_SEED_SHARDS
        } else {
            0
        };
        let known = hashes.map_values(|h: Vec<u8>| h@);
        let last = shards.subrange(from, n);
        assert(known.len() == hashes.len());
        assert(last.map_values(|e: Envelope| e.evidence_hash@).len() == n - from);
        if back <= 50 {
            let i = hashes.len() - back;
            assert(known[i] == hashes[i]@);
            assert(last.map_values(|e: Envelope| e.evidence_hash@)[i] == last[i].evidence_hash@);
        }
    }

    /// The evidence of a recording that the replay filter is to know after a start:
    /// that of the last shards, given in sequence order.
    pub fn replay_seeds(shards: &Vec<Envelope>) -> (hashes: Vec<Vec<u8>>)
        ensures
            Self::are_seeds(shards@, hashes@),
    {
        let n: usize = shards.len();
        let from: usize = if n > REPLAY_SEED_SHARDS {
            n - REPLAY_SEED_SHARDS
        } else {
            0
        };
        let mut hashes: Vec<Vec<u8>> = Vec::new();
        let mut i: usize = from;
        while i < n
            invariant
                n == shards@.len(),
                from <= i <= n,
                hashes@.len() == i - from,
                forall|k: int|
                    0 <= k < i - from ==> (#[trigger] hashes@[k])@ == shards@[from
                        + k].evidence_hash@,
            decreases n - i,
        {
            hashes.push(copied(&shards[i].evidence_hash));
            i += 1;
        }
        assert(hashes@.map_values(|h: Vec<u8>| h@) =~= shards@.subrange(
            from as int,
            n as int,
        ).map_values(|e: Envelope| e.evidence_hash@));
        hashes
    }

    /// A write of this envelope needs a fresh key: it is foreign, no key is
    /// stored for its recording, and the recording is not revoked.
    pub open spec fn needs_key(&self, envelope: Envelope) -> bool {
        &&& self.is_foreign(envelope.did@)
        &&& !self.guardian.content_keyring@.dom().contains(envelope.recording_id@)
        &&& !self.guardian.revoked(envelope.recording_id@)
    }

    /// Writes a shard with the key that was drawn for it, if one was. A key is
    /// used only where the write needs one.
    pub fn write_drawn(
        &mut self,
        envelope: Envelope,
        owner_dir: &str,
        drawn: Option<[u8; 32]>,
    ) -> (action: StorageAction)
        requires
            old(self).wf(),
        ensures
            final(self).wf(),
            Self::write_effect(*old(self), *final(self), envelope, owner_dir@, action),
            Self::drawn_effect(*old(self), *final(self), envelope, drawn, action),
    {
        let ghost before = *self;
        let needed = self.lacks_key(&envelope);
        if needed {
            match self.guardian.keep_drawn_key(&envelope.recording_id, drawn) {
                Some(_) => {
                    assert(self.guardian.content_keyring@.remove(envelope.recording_id@)
                        =~= before.guardian.content_keyring@.remove(envelope.recording_id@));
                },
                None => {
                    return StorageAction::NoRandomness;
                },
            }
        }
        match self.guardian.plan_append(&envelope.recording_id, owner_dir) {
            Ok(plan) => StorageAction::Write { envelope, persist_keyring: needed, plan },
            Err(e) => StorageAction::Reply(Err(e)),
        }
    }

    /// Tells whether a write of the envelope needs a fresh key.
    pub fn lacks_key(&self, envelope: &Envelope) -> (b: bool)
        requires
            self.wf(),
        ensures
            b == self.needs_key(*envelope),
    {
        !(envelope.did == self.guardian.local_did) && self.guardian.get_content_key(
            &envelope.recording_id,
        ).is_none() && !self.guardian.revoked_recordings.contains(&envelope.recording_id)
    }

    /// Draws a key where the write needs one, then writes.
    fn write_shard(&mut self, envelope: Envelope, owner_dir: &str) -> (action: StorageAction)
        requires
            old(self).wf(),
        ensures
            final(self).wf(),
            Self::write_effect(*old(self), *final(self), envelope, owner_dir@, action),
    {
        let drawn: Option<[u8; 32]> = if self.lacks_key(&envelope) {
            crypto::random_key()
        } else {
            None
        };
        self.write_drawn(envelope, owner_dir, drawn)
    }

    /// What becomes of a write, given the key that was drawn: a revoked recording
    /// is refused; a write that needs no key goes ahead without one; a write that
    /// needs one goes ahead where one was drawn, which is stored first.
    pub open spec fn drawn_effect(
        before: Self,
        after: Self,
        envelope: Envelope,
        drawn: Option<[u8; 32]>,
        action: StorageAction,
    ) -> bool {
        let id = envelope.recording_id@;
        let keyring = before.guardian.content_keyring@;
        if before.guardian.revoked(id) {
            &&& action matches StorageAction::Reply(Err(e)) && e.is_revoked(id)
            &&& after.guardian.content_keyring@ == keyring
        } else if !before.needs_key(envelope) {
            &&& action matches StorageAction::Write { persist_keyring, .. } && !persist_keyring
            &&& after.guardian.content_keyring@ == keyring
        } else {
            match drawn {
                None => {
                    &&& action is NoRandomness
                    &&& after.guardian.content_keyring@ == keyring
                },
                Some(k) => {
                    &&& action matches StorageAction::Write { persist_keyring, .. }
                        && persist_keyring
                    &&& after.guardian.content_keyring@ == keyring.insert(id, k)
                },
            }
        }
    }

    /// What a write does: a foreign recording gets its key on its first shard,
    /// an own recording never gets one, and a revoked recording is refused.
    pub open spec fn write_effect(
        before: Self,
        after: Self,
        envelope: Envelope,
        owner_dir: Seq<char>,
        action: StorageAction,
    ) -> bool {
        let id = envelope.recording_id@;
        &&& after == (StorageActor {
            guardian: Guardian {
                content_keyring: after.guardian.content_keyring,
                ..before.guardian
            },
            ..before
        })
        &&& match action {
            StorageAction::NoRandomness => before.needs_key(envelope)
                && after.guardian.content_keyring@ == before.guardian.content_keyring@,
            StorageAction::Reply(Err(e)) => {
                &&& before.guardian.revoked(id)
                &&& e.is_revoked(id)
                &&& after.guardian.content_keyring@ == before.guardian.content_keyring@
            },
            StorageAction::Write { envelope: e, persist_keyring, plan } => {
                &&& e == envelope
                &&& !before.guardian.revoked(id)
                &&& persist_keyring == before.needs_key(envelope)
                &&& if persist_keyring {
                    &&& after.guardian.content_keyring@.dom().contains(id)
                    &&& after.guardian.content_keyring@.remove(id)
                        == before.guardian.content_keyring@.remove(id)
                } else {
                    after.guardian.content_keyring@ == before.guardian.content_keyring@
                }
                &&& match plan {
                    AppendPlan::LogExists => before.guardian.recording_logs@.dom().contains(id),
                    AppendPlan::OpenLog { dir, path } => {
                        &&& !before.guardian.recording_logs@.dom().contains(id)
                        &&& dir@ == crate::paths::path_of(
                            before.guardian.vault_path@,
                            owner_dir,
                        )
                        &&& path@ == crate::paths::path_of(
                            dir@,
                            id + ".recording"@,
                        )
                    },
                }
            },
            _ => false,
        }
    }

    /// A shard that is written goes to the open log of its recording, or to a new one in
    /// its owner's directory, and nothing of the vault but its keys has changed by then.
    pub proof fn law_shards_go_to_their_owners_log(
        before: Self,
        after: Self,
        envelope: Envelope,
        owner_dir: Seq<char>,
        action: StorageAction,
    )
        requires
            Self::write_effect(before, after, envelope, owner_dir, action),
        ensures
            action matches StorageAction::Write { envelope: e, persist_keyring, plan } ==> {
                &&& e == envelope
                &&& plan is LogExists <==> before.guardian.recording_logs@.dom().contains(
                    envelope.recording_id@,
                )
                &&& plan matches AppendPlan::OpenLog { dir, path } ==> dir@
                    == crate::paths::path_of(before.guardian.vault_path@, owner_dir) && path@
                    == crate::paths::path_of(dir@, envelope.recording_id@ + ".recording"@)
                &&& persist_keyring <==> envelope.did@ != before.guardian.local_did@
                    && !before.guardian.content_keyring@.dom().contains(envelope.recording_id@)
            },
            before.guardian.revoked_recordings@.dom().contains(envelope.recording_id@)
                ==> action is Reply,
            after.guardian.recording_logs == before.guardian.recording_logs,
            after.guardian.contexts == before.guardian.contexts,
            after.guardian.ledger == before.guardian.ledger,
    {
    }

    /// Own recordings have derived keys: writing a shard of one never stores a
    /// key for it.
    pub proof fn law_own_recordings_store_no_key(
        before: Self,
        after: Self,
        envelope: Envelope,
        owner_dir: Seq<char>,
        action: StorageAction,
    )
        requires
            Self::write_effect(before, after, envelope, owner_dir, action),
            !before.is_foreign(envelope.did@),
        ensures
            after.guardian.content_keyring@ == before.guardian.content_keyring@,
    {
    }

    /// The first shard of a foreign recording is written, and its recording has
    /// the drawn key from then on; later shards keep that key.
    pub proof fn law_a_foreign_recording_gets_one_key(
        before: Self,
        after: Self,
        envelope: Envelope,
        key: [u8; 32],
        action: StorageAction,
    )
        requires
            before.is_foreign(envelope.did@),
            !before.guardian.revoked(envelope.recording_id@),
            Self::drawn_effect(before, after, envelope, Some(key), action),
        ensures
            action is Write,
            after.guardian.content_keyring@.dom().contains(envelope.recording_id@),
            after.guardian.content_keyring@[envelope.recording_id@]
                == if before.guardian.content_keyring@.dom().contains(envelope.recording_id@) {
                before.guardian.content_keyring@[envelope.recording_id@]
            } else {
                key
            },
            !after.needs_key(envelope),
    {
    }

    /// The verdict on a revocation: the token must be sound, and must match the
    /// key of a stored shard or at least concern a recording that is held.
    pub fn authorize_revocation(
        &self,
        recording_id: &String,
        token_check: Result<(), String>,
        key_check: Option<Result<(), String>>,
    ) -> (verdict: Result<(), GuardianError>)
        requires
            self.wf(),
        ensures
            self.revocation_verdict(recording_id@, token_check, key_check, verdict),
    {
        match token_check {
            Err(m) => {
                return Err(
                    GuardianError::VerificationFailed(
                        text::join("Revocation token invalid: ", m.as_str()),
                    ),
                );
            },
            Ok(()) => {},
        }
        match key_check {
            Some(Err(m)) => Err(
                GuardianError::VerificationFailed(
                    text::join("Revocation authorization failed: ", m.as_str()),
                ),
            ),
            Some(Ok(())) => Ok(()),
            None => if self.guardian.has_recording(recording_id) {
                Ok(())
            } else {
                Err(
                    GuardianError::VerificationFailed(
                        "Cannot authorize revocation for unknown recording".to_owned(),
                    ),
                )
            },
        }
    }

    /// The verdict on a revocation, error by error.
    pub open spec fn revocation_verdict(
        &self,
        recording_id: Seq<char>,
        token_check: Result<(), String>,
        key_check: Option<Result<(), String>>,
        verdict: Result<(), GuardianError>,
    ) -> bool {
        match token_check {
            Err(m) => verdict matches Err(e) && e.is_verification_failed(
                "Revocation token invalid: "@ + m@,
            ),
            Ok(()) => match key_check {
                Some(Err(m)) => verdict matches Err(e) && e.is_verification_failed(
                    "Revocation authorization failed: "@ + m@,
                ),
                Some(Ok(())) => verdict is Ok,
                None => if self.guardian.holds(recording_id) {
                    verdict is Ok
                } else {
                    verdict matches Err(e) && e.is_verification_failed(
                        "Cannot authorize revocation for unknown recording"@,
                    )
                },
            },
        }
    }

    /// Pins the policy of a new recording. Revoked recordings cannot be started
    /// again; only publishable ones are catalogued in the manifest.
    fn start_recording(&mut self, recording_id: String, publishable: bool) -> (action:
        StorageAction)
        requires
            old(self).wf(),
        ensures
            final(self).wf(),
            Self::start_effect(*old(self), *final(self), recording_id@, publishable, action),
    {
        if self.guardian.revoked_recordings.contains(&recording_id) {
            return StorageAction::StartRefused(ShardError::RecordingRevoked);
        }
        self.guardian.set_recording_metadata(
            recording_id,
            RecordingOptions { publishable }.into_metadata(),
        );
        StorageAction::Start { append_manifest: publishable }
    }

    /// What starting a recording does.
    pub open spec fn start_effect(
        before: Self,
        after: Self,
        recording_id: Seq<char>,
        publishable: bool,
        action: StorageAction,
    ) -> bool {
        if before.guardian.revoked(recording_id) {
            &&& after == before
            &&& action == StorageAction::StartRefused(ShardError::RecordingRevoked)
        } else {
            &&& after == (StorageActor {
                guardian: Guardian {
                    recording_metadata: after.guardian.recording_metadata,
                    ..before.guardian
                },
                ..before
            })
            &&& after.guardian.recording_metadata.map@
                == before.guardian.recording_metadata.map@.insert(
                recording_id,
                (RecordingOptions { publishable }).metadata(),
            )
            &&& action == (StorageAction::Start { append_manifest: publishable })
        }
    }

    /// A recording started as local-only is never announced, whatever shard of
    /// it is written, for as long as its policy stands.
    pub proof fn law_local_only_is_never_announced(
        before: Self,
        after: Self,
        recording_id: Seq<char>,
        action: StorageAction,
    )
        requires
            Self::start_effect(before, after, recording_id, false, action),
            !before.guardian.revoked(recording_id),
        ensures
            !after.announcement(recording_id),
            action == (StorageAction::Start { append_manifest: false }),
    {
    }

    /// What the pinning of the manifest does.
    pub open spec fn manifest_pinned(before: Self, after: Self, manifest_id: Seq<char>) -> bool {
        &&& after == (StorageActor {
            guardian: Guardian {
                recording_metadata: after.guardian.recording_metadata,
                ..before.guardian
            },
            ..before
        })
        &&& after.guardian.recording_metadata.map@
            == before.guardian.recording_metadata.map@.insert(
            manifest_id,
            (RecordingOptions { publishable: true }).metadata(),
        )
    }

    /// A manifest whose entry was appended is announced wherever someone listens, whatever
    /// its policy was before, and pinning it changes the policy of no other recording.
    pub proof fn law_the_manifest_is_always_announced(
        before: Self,
        after: Self,
        manifest_id: Seq<char>,
        appended: Result<(), String>,
        settled: Result<Option<String>, ShardError>,
        other: Seq<char>,
    )
        requires
            Self::manifest_pinned(before, after, manifest_id),
            after.manifest_settled(manifest_id, appended, settled),
        ensures
            settled is Ok <==> appended is Ok,
            settled matches Ok(announce) ==> (announce is Some <==> before.announcing) && (
            announce is Some ==> announce->0@ == manifest_id),
            after.guardian.recording_metadata.map@[manifest_id].publishable,
            after.guardian.recording_metadata.map@[manifest_id].schema_version == 1,
            other != manifest_id ==> (after.guardian.recording_metadata.map@.dom().contains(other)
                == before.guardian.recording_metadata.map@.dom().contains(other)),
            other != manifest_id && before.guardian.recording_metadata.map@.dom().contains(other)
                ==> after.guardian.recording_metadata.map@[other]
                == before.guardian.recording_metadata.map@[other],
    {
    }

    /// Pins the manifest itself as publishable, before an entry is appended.
    pub fn pin_manifest(&mut self, manifest_id: &String)
        requires
            old(self).wf(),
        ensures
            final(self).wf(),
            Self::manifest_pinned(*old(self), *final(self), manifest_id@),
            final(self).guardian.recording_metadata.publishable(manifest_id@),
    {
        self.guardian.set_recording_metadata(
            manifest_id.clone(),
            RecordingOptions { publishable: true }.into_metadata(),
        );
    }

    /// How the cataloguing of a recording ends.
    pub open spec fn manifest_settled(
        &self,
        manifest_id: Seq<char>,
        appended: Result<(), String>,
        settled: Result<Option<String>, ShardError>,
    ) -> bool {
        match appended {
            Err(m) => settled matches Err(e) && e.is_io("manifest append: "@ + m@),
            Ok(()) => settled matches Ok(announce) && announce is Some == self.announcement(
                manifest_id,
            ) && (announce matches Some(id) ==> id@ == manifest_id),
        }
    }

    /// Concludes the cataloguing of a recording, after an attempt to append the
    /// entry: the manifest is announced like any recording.
    pub fn settle_manifest(&self, manifest_id: &String, appended: Result<(), String>) -> (settled:
        Result<Option<String>, ShardError>)
        requires
            self.wf(),
        ensures
            self.manifest_settled(manifest_id@, appended, settled),
    {
        match appended {
            Err(m) => Err(ShardError::Io(text::join("manifest append: ", m.as_str()))),
            Ok(()) => Ok(self.announce(manifest_id)),
        }
    }

    /// What the stored revocations do.
    pub open spec fn revocations_restored(
        before: Self,
        after: Self,
        revoked: Seq<Seq<char>>,
    ) -> bool {
        &&& after == (StorageActor {
            guardian: Guardian {
                revoked_recordings: after.guardian.revoked_recordings,
                ..before.guardian
            },
            ..before
        })
        &&& after.guardian.revoked_recordings@.dom()
            == before.guardian.revoked_recordings@.dom().union(revoked.to_set())
    }

    /// Every recording that was revoked before a restart is revoked after it, and no
    /// other becomes so; nothing else changes.
    pub proof fn law_revocations_outlive_a_restart(
        before: Self,
        after: Self,
        revoked: Seq<Seq<char>>,
        id: Seq<char>,
    )
        requires
            Self::revocations_restored(before, after, revoked),
        ensures
            after.guardian.revoked_recordings@.dom().contains(id)
                <==> before.guardian.revoked_recordings@.dom().contains(id) || revoked.contains(id),
            after.guardian.recording_logs == before.guardian.recording_logs,
            after.guardian.content_keyring == before.guardian.content_keyring,
    {
        assert(revoked.to_set().contains(id) <==> revoked.contains(id));
    }

    /// Marks the recordings of stored revocations as revoked.
    pub fn restore_revocations(&mut self, revoked: &Vec<String>)
        requires
            old(self).wf(),
        ensures
            final(self).wf(),
            Self::revocations_restored(*old(self), *final(self), text::views(revoked@)),
    {
        let ghost start = self.guardian.revoked_recordings@.dom();
        let ghost all = text::views(revoked@);
        let ghost before = *self;
        let mut i: usize = 0;
        assert(start =~= start.union(all.subrange(0, 0).to_set()));
        while i < revoked.len()
            invariant
                self.wf(),
                i <= revoked@.len(),
                all == text::views(revoked@),
                *self == (StorageActor {
                    guardian: Guardian {
                        revoked_recordings: self.guardian.revoked_recordings,
                        ..before.guardian
                    },
                    ..before
                }),
                self.guardian.revoked_recordings@.dom() == start.union(
                    all.subrange(0, i as int).to_set(),
                ),
            decreases revoked@.len() - i,
        {
            self.guardian.revoked_recordings.insert(revoked[i].clone(), ());
            proof {
                let seen = all.subrange(0, i as int);
                assert(all.subrange(0, i + 1) =~= seen.push(all[i as int]));
                seen.lemma_push_to_set_commute(all[i as int]);
                assert(self.guardian.revoked_recordings@.dom() =~= start.union(
                    all.subrange(0, i + 1).to_set(),
                ));
            }
            i += 1;
        }
        assert(all.subrange(0, i as int) =~= all);
    }

    /// What the destruction of surviving keys does.
    pub open spec fn ghosts_cleaned(before: Self, after: Self, cleaned: u32) -> bool {
        let ghosts = before.guardian.content_keyring@.dom().intersect(
            before.guardian.revoked_recordings@.dom(),
        ).len();
        &&& after == (StorageActor {
            guardian: Guardian {
                content_keyring: after.guardian.content_keyring,
                ..before.guardian
            },
            ..before
        })
        &&& after.guardian.content_keyring@ == before.guardian.content_keyring@.remove_keys(
            before.guardian.revoked_recordings@.dom(),
        )
        &&& cleaned as nat == if ghosts <= u32::MAX {
            ghosts
        } else {
            u32::MAX as nat
        }
    }

    /// No key of a revoked recording survives, every other key does, as it was, and what
    /// is reported is nothing exactly where there was nothing to destroy.
    pub proof fn law_no_revoked_key_survives(
        before: Self,
        after: Self,
        cleaned: u32,
        id: Seq<char>,
    )
        requires
            before.wf(),
            Self::ghosts_cleaned(before, after, cleaned),
        ensures
            after.guardian.content_keyring@.dom().contains(id)
                <==> before.guardian.content_keyring@.dom().contains(id)
                && !before.guardian.revoked_recordings@.dom().contains(id),
            after.guardian.content_keyring@.dom().contains(id) ==> after.guardian.content_keyring@[
                id
            ] == before.guardian.content_keyring@[id],
            before.guardian.content_keyring@.dom().contains(id)
                && before.guardian.revoked_recordings@.dom().contains(id) ==> cleaned > 0,
            after.guardian.revoked_recordings == before.guardian.revoked_recordings,
            after.guardian.recording_logs == before.guardian.recording_logs,
    {
        let ghosts = before.guardian.content_keyring@.dom().intersect(
            before.guardian.revoked_recordings@.dom(),
        );
        before.guardian.content_keyring.lemma_entries();
        if ghosts.contains(id) {
            assert(ghosts.finite());
            if ghosts.len() == 0 {
                assert(ghosts =~= Set::empty());
            }
        }
    }

    /// Destroys keys of revoked recordings that survived a crash. Gives their
    /// number; where it is not zero the keyring is to be stored.
    pub fn cleanup_ghost_keys(&mut self) -> (cleaned: u32)
        requires
            old(self).wf(),
        ensures
            final(self).wf(),
            Self::ghosts_cleaned(*old(self), *final(self), cleaned),
    {
        let ghost before = *self;
        let ghost keyring = self.guardian.content_keyring@;
        let ghost names = self.guardian.revoked_recordings.keys();
        let n: usize = self.guardian.revoked_recordings.len();
        let mut cleaned: u32 = 0;
        let mut i: usize = 0;
        proof {
            self.guardian.revoked_recordings.lemma_entries();
            self.guardian.content_keyring.lemma_entries();
            assert(names.subrange(0, 0).to_set() =~= Set::<Seq<char>>::empty());
            assert(keyring =~= keyring.remove_keys(names.subrange(0, 0).to_set()));
            assert(keyring.dom().intersect(names.subrange(0, 0).to_set()) =~= Set::<
                Seq<char>,
            >::empty());
        }
        while i < n
            invariant
                self.wf(),
                before.wf(),
                names == before.guardian.revoked_recordings.keys(),
                keyring == before.guardian.content_keyring@,
                keyring.dom().finite(),
                n == names.len(),
                i <= n,
                names.no_duplicates(),
                *self == (StorageActor {
                    guardian: Guardian {
                        content_keyring: self.guardian.content_keyring,
                        ..before.guardian
                    },
                    ..before
                }),
                self.guardian.content_keyring@ == keyring.remove_keys(
                    names.subrange(0, i as int).to_set(),
                ),
                cleaned as nat == if keyring.dom().intersect(
                    names.subrange(0, i as int).to_set(),
                ).len() <= u32::MAX {
                    keyring.dom().intersect(names.subrange(0, i as int).to_set()).len()
                } else {
                    u32::MAX as nat
                },
            decreases n - i,
        {
            let id = self.guardian.revoked_recordings.key_at(i).clone();
            let ghost seen = names.subrange(0, i as int);
            let ghost more = names.subrange(0, i + 1);
            proof {
                assert(more =~= seen.push(id@));
                seen.lemma_push_to_set_commute(id@);
                assert(!seen.contains(id@));
                assert(keyring.remove_keys(more.to_set()) =~= keyring.remove_keys(
                    seen.to_set(),
                ).remove(id@));
                let was = keyring.dom().intersect(seen.to_set());
                if keyring.dom().contains(id@) {
                    assert(keyring.dom().intersect(more.to_set()) =~= was.insert(id@));
                } else {
                    assert(keyring.dom().intersect(more.to_set()) =~= was);
                }
            }
            if self.guardian.destroy_content_key(&id) {
                cleaned = cleaned.saturating_add(1);
            }
            i += 1;
        }
        proof {
            assert(names.subrange(0, n as int) =~= names);
            assert(names.to_set() =~= before.guardian.revoked_recordings@.dom());
        }
        cleaned
    }

    /// What each command does to the state and what is done about it.
    pub open spec fn command_effect(
        before: Self,
        after: Self,
        command: StorageCommand,
        action: StorageAction,
    ) -> bool {
        match command {
            StorageCommand::Ingest { owner, pressure_critical, ttl_ms } => {
                &&& after == (StorageActor { current_tolerance_ms: ttl_ms, ..before })
                &&& match before.admission(pressure_critical, owner@) {
                    Admission::Own => action == (StorageAction::Reassemble { foreign: false }),
                    Admission::Foreign => action == (StorageAction::Reassemble { foreign: true }),
                    _ => action matches StorageAction::Reply(Err(e)) && e.is_storage_failure(
                        before.refusal(pressure_critical, owner@),
                    ),
                }
            },
            StorageCommand::Retrieval { recording_id } => {
                &&& after == before
                &&& action == if before.guardian.recording_logs@.dom().contains(recording_id@) {
                    StorageAction::ReadLog
                } else {
                    StorageAction::Nothing
                }
            },
            StorageCommand::GetShard { recording_id, sequence_id } => {
                &&& after == before
                &&& action == if before.guardian.recording_logs@.dom().contains(recording_id@)
                    && before.guardian.recording_logs@[recording_id@].index@.dom().contains(
                    sequence_id,
                ) {
                    StorageAction::ReadAt {
                        offset: before.guardian.recording_logs@[recording_id@].index@[sequence_id],
                    }
                } else {
                    StorageAction::Nothing
                }
            },
            StorageCommand::WriteShard { envelope, owner_dir } => Self::write_effect(
                before,
                after,
                envelope,
                owner_dir@,
                action,
            ),
            StorageCommand::IngestEnvelope { envelope, ttl_ms } => {
                &&& after == before
                &&& match action {
                    StorageAction::Reply(Err(e)) => before.guardian.promotion_is_planned(
                        envelope,
                        ttl_ms,
                        Err(e),
                    ),
                    StorageAction::Promote { envelope: e, promotion } => e == envelope
                        && before.guardian.promotion_is_planned(envelope, ttl_ms, Ok(promotion)),
                    _ => false,
                }
            },
            StorageCommand::EmergencySalvage => after == before && action
                == StorageAction::Salvage,
            StorageCommand::Revoke { recording_id, token_check, key_check } => {
                &&& after == before
                &&& match action {
                    StorageAction::Execute => before.revocation_verdict(
                        recording_id@,
                        token_check,
                        key_check,
                        Ok(()),
                    ),
                    StorageAction::Reply(Err(e)) => before.revocation_verdict(
                        recording_id@,
                        token_check,
                        key_check,
                        Err(e),
                    ),
                    _ => false,
                }
            },
            StorageCommand::StartRecording { recording_id } => Self::start_effect(
                before,
                after,
                recording_id@,
                true,
                action,
            ),
            StorageCommand::StartRecordingWithOptions { recording_id, publishable } => {
                Self::start_effect(before, after, recording_id@, publishable, action)
            },
            StorageCommand::GetContentKey { recording_id, derived } => {
                &&& after == before
                &&& action == StorageAction::Key(before.guardian.key_for(recording_id@, derived))
            },
            StorageCommand::ListRecordings => {
                &&& after == before
                &&& action matches StorageAction::Names(ids) && {
                    &&& text::ascending(text::views(ids@))
                    &&& forall|id: Seq<char>|
                        text::views(ids@).contains(id) <==> #[trigger] before.guardian.listed(id)
                }
            },
            StorageCommand::DebugDeleteRecording { recording_id } => {
                &&& after == (StorageActor {
                    guardian: Guardian {
                        recording_logs: after.guardian.recording_logs,
                        contexts: after.guardian.contexts,
                        content_keyring: after.guardian.content_keyring,
                        ..before.guardian
                    },
                    ..before
                })
                &&& after.guardian.recording_logs@ == before.guardian.recording_logs@.remove(
                    recording_id@,
                )
                &&& after.guardian.contexts@ == before.guardian.contexts@.remove(recording_id@)
                &&& after.guardian.content_keyring@ == before.guardian.content_keyring@.remove(
                    recording_id@,
                )
                &&& action matches StorageAction::Deleted { log_path } && match log_path {
                    Some(p) => before.guardian.recording_logs@.dom().contains(recording_id@) && p
                        == before.guardian.recording_logs@[recording_id@].path,
                    None => !before.guardian.recording_logs@.dom().contains(recording_id@),
                }
            },
            StorageCommand::DebugRecordingInfo { recording_id } => {
                &&& after == before
                &&& action matches StorageAction::Info { shards, has_key } && {
                    &&& shards == if before.guardian.recording_logs@.dom().contains(
                        recording_id@,
                    ) {
                        before.guardian.recording_logs@[recording_id@].index@.dom().len()
                    } else {
                        0
                    }
                    &&& has_key == before.guardian.content_keyring@.dom().contains(recording_id@)
                }
            },
            StorageCommand::DebugVaultListing => after == before && action
                == StorageAction::ListVault,
            StorageCommand::GetRevocationTokens => after == before && action
                == StorageAction::ReadRevocations,
            StorageCommand::PersistPosterior => after == before && action
                == StorageAction::WritePosterior,
        }
    }

    /// No command brings a revoked recording back: it stays revoked, none of its
    /// shards is written or promoted, no key is stored for it, and it cannot be
    /// started again.
    pub proof fn law_revoked_recordings_stay_gone(
        before: Self,
        after: Self,
        command: StorageCommand,
        action: StorageAction,
        recording_id: Seq<char>,
    )
        requires
            before.guardian.revoked(recording_id),
            Self::command_effect(before, after, command, action),
        ensures
            after.guardian.revoked(recording_id),
            action matches StorageAction::Write { envelope, persist_keyring, plan }
                ==> envelope.recording_id@ != recording_id,
            action matches StorageAction::Promote { envelope, promotion }
                ==> envelope.recording_id@ != recording_id,
            command matches StorageCommand::StartRecording { recording_id: id } ==> id@
                == recording_id ==> action is StartRefused,
            command matches StorageCommand::StartRecordingWithOptions {
                recording_id: id,
                publishable,
            } ==> id@ == recording_id ==> action is StartRefused,
            after.guardian.content_keyring@.dom().contains(recording_id)
                ==> before.guardian.content_keyring@.dom().contains(recording_id),
    {
        if command is WriteShard && action is Write {
            let id = command->WriteShard_envelope.recording_id@;
            if after.guardian.content_keyring@.dom().contains(recording_id) {
                assert(after.guardian.content_keyring@.remove(id).dom().contains(recording_id));
            }
        }
    }

    /// A chunk is taken exactly where there is room for it: without critical
    /// pressure, with the workbench below its limit, and, where it is foreign, with
    /// all foreign bytes and those of its owner below theirs. Every other chunk is
    /// refused as a storage failure. Asking changes nothing that is stored.
    pub proof fn law_a_chunk_within_its_limits_is_taken(
        before: Self,
        after: Self,
        owner: String,
        pressure_critical: bool,
        ttl_ms: u64,
        action: StorageAction,
    )
        requires
            Self::command_effect(
                before,
                after,
                StorageCommand::Ingest { owner, pressure_critical, ttl_ms },
                action,
            ),
        ensures
            ({
                let ledger = before.guardian.ledger;
                let counts = ledger.foreign_bytes_by_owner@;
                let room = !pressure_critical && crate::persistence::vault::guardian::total_len(
                    before.guardian.contexts.values(),
                )
                    * AVG_ENVELOPE_BYTES < before.limits.max_storage_bytes;
                let foreign_room = ledger.foreign_committed_bytes + ledger.foreign_transient_bytes
                    < before.limits.max_foreign_storage_bytes;
                let owner_room = if counts.dom().contains(owner@) {
                    counts[owner@] < before.limits.max_foreign_per_owner_bytes
                } else {
                    0 < before.limits.max_foreign_per_owner_bytes
                };
                let own = owner@ == before.guardian.local_did@;
                &&& room && own <==> action == (StorageAction::Reassemble { foreign: false })
                &&& room && !own && foreign_room && owner_room <==> action
                    == (StorageAction::Reassemble { foreign: true })
                &&& !(action is Reassemble) ==> action matches StorageAction::Reply(
                    Err(GuardianError::StorageFailure(_)),
                )
            }),
            after.guardian == before.guardian,
            after.limits == before.limits,
            after.current_tolerance_ms == ttl_ms,
    {
    }

    /// More room never turns a chunk away: what is taken under some limits is taken
    /// under wider ones.
    pub proof fn law_wider_limits_take_no_less(
        narrow: Self,
        wide: Self,
        narrow_after: Self,
        wide_after: Self,
        owner: String,
        pressure_critical: bool,
        ttl_ms: u64,
        narrow_action: StorageAction,
        wide_action: StorageAction,
    )
        requires
            wide.guardian == narrow.guardian,
            wide.limits.max_storage_bytes >= narrow.limits.max_storage_bytes,
            wide.limits.max_foreign_storage_bytes >= narrow.limits.max_foreign_storage_bytes,
            wide.limits.max_foreign_per_owner_bytes >= narrow.limits.max_foreign_per_owner_bytes,
            Self::command_effect(
                narrow,
                narrow_after,
                StorageCommand::Ingest { owner, pressure_critical, ttl_ms },
                narrow_action,
            ),
            Self::command_effect(
                wide,
                wide_after,
                StorageCommand::Ingest { owner, pressure_critical: false, ttl_ms },
                wide_action,
            ),
            narrow_action is Reassemble,
        ensures
            wide_action == narrow_action,
    {
        Self::law_a_chunk_within_its_limits_is_taken(
            narrow,
            narrow_after,
            owner,
            pressure_critical,
            ttl_ms,
            narrow_action,
        );
        Self::law_a_chunk_within_its_limits_is_taken(
            wide,
            wide_after,
            owner,
            false,
            ttl_ms,
            wide_action,
        );
    }

    /// A revocation is carried out exactly where its token is sound and either fits
    /// the key of a stored shard or, where no shard is stored to compare with,
    /// concerns a recording that is on disk or being put together. The vault is not
    /// touched before that.
    pub proof fn law_a_sound_token_revokes(
        before: Self,
        after: Self,
        recording_id: String,
        token_check: Result<(), String>,
        key_check: Option<Result<(), String>>,
        action: StorageAction,
    )
        requires
            Self::command_effect(
                before,
                after,
                StorageCommand::Revoke { recording_id, token_check, key_check },
                action,
            ),
        ensures
            after == before,
            action is Execute <==> token_check is Ok && ((key_check is Some && key_check->0 is Ok)
                || (key_check is None && (before.guardian.recording_logs@.dom().contains(
                recording_id@,
            ) || before.guardian.contexts@.dom().contains(recording_id@)))),
            !(action is Execute) ==> action matches StorageAction::Reply(
                Err(GuardianError::VerificationFailed(_)),
            ),
    {
    }

    /// A recording that is started has the policy that was chosen, no other policy
    /// changes, no key is stored, and it is catalogued exactly where it may be told
    /// of.
    pub proof fn law_a_started_recording_follows_its_choice(
        before: Self,
        after: Self,
        recording_id: String,
        publishable: bool,
        action: StorageAction,
        other: Seq<char>,
    )
        requires
            !before.guardian.revoked_recordings@.dom().contains(recording_id@),
            Self::command_effect(
                before,
                after,
                StorageCommand::StartRecordingWithOptions { recording_id, publishable },
                action,
            ),
        ensures
            action == (StorageAction::Start { append_manifest: publishable }),
            after.guardian.recording_metadata.map@.dom().contains(recording_id@),
            after.guardian.recording_metadata.map@[recording_id@].publishable == publishable,
            other != recording_id@ ==> after.guardian.recording_metadata.map@.dom().contains(other)
                == before.guardian.recording_metadata.map@.dom().contains(other),
            other != recording_id@ && before.guardian.recording_metadata.map@.dom().contains(other)
                ==> after.guardian.recording_metadata.map@[other]
                == before.guardian.recording_metadata.map@[other],
            after.guardian.content_keyring == before.guardian.content_keyring,
            after.guardian.recording_logs == before.guardian.recording_logs,
    {
    }

    /// Without options a recording may be told of.
    pub proof fn law_plain_recordings_are_publishable(
        before: Self,
        after: Self,
        recording_id: String,
        action: StorageAction,
    )
        requires
            !before.guardian.revoked_recordings@.dom().contains(recording_id@),
            Self::command_effect(
                before,
                after,
                StorageCommand::StartRecording { recording_id },
                action,
            ),
        ensures
            action == (StorageAction::Start { append_manifest: true }),
            after.guardian.recording_metadata.map@.dom().contains(recording_id@),
            after.guardian.recording_metadata.map@[recording_id@].publishable,
    {
    }

    /// A shard is looked for where the index of its recording's log has it, and
    /// nowhere else; a recording is read where it has a log.
    pub proof fn law_reads_follow_the_index(
        before: Self,
        after: Self,
        recording_id: String,
        sequence_id: u32,
        action: StorageAction,
        read_after: Self,
        read: StorageAction,
    )
        requires
            Self::command_effect(
                before,
                after,
                StorageCommand::GetShard { recording_id, sequence_id },
                action,
            ),
            Self::command_effect(
                before,
                read_after,
                StorageCommand::Retrieval { recording_id },
                read,
            ),
        ensures
            ({
                let logs = before.guardian.recording_logs@;
                &&& action is ReadAt <==> logs.dom().contains(recording_id@)
                    && logs[recording_id@].index@.dom().contains(sequence_id)
                &&& action matches StorageAction::ReadAt { offset } ==> offset
                    == logs[recording_id@].index@[sequence_id]
                &&& !(action is ReadAt) ==> action is Nothing
                &&& read is ReadLog <==> logs.dom().contains(recording_id@)
                &&& !(read is ReadLog) ==> read is Nothing
            }),
            after == before,
            read_after == before,
    {
    }

    /// What a recording is decrypted with: its stored key, whoever asks, and only
    /// where none is stored the derived one.
    pub proof fn law_stored_keys_come_first(
        before: Self,
        after: Self,
        recording_id: String,
        derived: [u8; 32],
        action: StorageAction,
    )
        requires
            Self::command_effect(
                before,
                after,
                StorageCommand::GetContentKey { recording_id, derived },
                action,
            ),
        ensures
            after == before,
            action is Key,
            before.guardian.content_keyring@.dom().contains(recording_id@) ==> action
                == StorageAction::Key(before.guardian.content_keyring@[recording_id@]),
            !before.guardian.content_keyring@.dom().contains(recording_id@) ==> action
                == StorageAction::Key(derived),
    {
    }

    /// The key that was drawn for a foreign recording is the key that is answered
    /// with from then on.
    pub proof fn law_a_drawn_key_is_given_back(
        before: Self,
        between: Self,
        after: Self,
        envelope: Envelope,
        key: [u8; 32],
        derived: [u8; 32],
        write: StorageAction,
        action: StorageAction,
    )
        requires
            envelope.did@ != before.guardian.local_did@,
            !before.guardian.content_keyring@.dom().contains(envelope.recording_id@),
            !before.guardian.revoked_recordings@.dom().contains(envelope.recording_id@),
            Self::drawn_effect(before, between, envelope, Some(key), write),
            Self::command_effect(
                between,
                after,
                StorageCommand::GetContentKey { recording_id: envelope.recording_id, derived },
                action,
            ),
        ensures
            write matches StorageAction::Write { persist_keyring, .. } && persist_keyring,
            action == StorageAction::Key(key),
    {
    }

    /// A write that needs no fresh key goes ahead: one of an own recording, and one
    /// of a recording whose key is stored, unless the recording is revoked. It
    /// goes to the log that there is, or opens one.
    pub proof fn law_writes_without_need_go_ahead(
        before: Self,
        after: Self,
        envelope: Envelope,
        owner_dir: String,
        action: StorageAction,
    )
        requires
            !before.guardian.revoked_recordings@.dom().contains(envelope.recording_id@),
            envelope.did@ == before.guardian.local_did@
                || before.guardian.content_keyring@.dom().contains(envelope.recording_id@),
            Self::command_effect(
                before,
                after,
                StorageCommand::WriteShard { envelope, owner_dir },
                action,
            ),
        ensures
            after.guardian.content_keyring@ == before.guardian.content_keyring@,
            action matches StorageAction::Write { envelope: written, persist_keyring, plan } && {
                &&& written == envelope
                &&& !persist_keyring
                &&& plan is LogExists <==> before.guardian.recording_logs@.dom().contains(
                    envelope.recording_id@,
                )
            },
    {
    }

    /// A recording is listed exactly where it is on disk, being put together or has
    /// a stored key, and is not revoked; the names stand in order.
    pub proof fn law_listing_is_complete(
        before: Self,
        after: Self,
        action: StorageAction,
        id: Seq<char>,
    )
        requires
            Self::command_effect(before, after, StorageCommand::ListRecordings, action),
        ensures
            after == before,
            action matches StorageAction::Names(names) && {
                &&& text::views(names@).contains(id) <==> (before.guardian.recording_logs@.dom()
                    .contains(id) || before.guardian.contexts@.dom().contains(id)
                    || before.guardian.content_keyring@.dom().contains(id))
                    && !before.guardian.revoked_recordings@.dom().contains(id)
                &&& forall|i: int, j: int|
                    0 <= i < j < names@.len() ==> text::text_before(
                        #[trigger] names@[i]@,
                        #[trigger] names@[j]@,
                    )
            },
    {
        match action {
            StorageAction::Names(names) => {
                assert(text::views(names@).contains(id) <==> before.guardian.listed(id));
                assert forall|i: int, j: int| 0 <= i < j < names@.len() implies text::text_before(
                    #[trigger] names@[i]@,
                    #[trigger] names@[j]@,
                ) by {
                    assert(text::views(names@)[i] == names@[i]@);
                    assert(text::views(names@)[j] == names@[j]@);
                }
            },
            _ => {},
        }
    }

    /// A quota that is used up lets no foreign chunk in, and what is the node's own
    /// is not measured by it.
    pub proof fn law_full_quota_takes_nothing_foreign(&self, pressure_critical: bool, owner: Seq<char>)
        ensures
            self.admission(pressure_critical, owner) == Admission::Foreign ==> {
                &&& self.guardian.ledger.foreign_total() < self.limits.max_foreign_storage_bytes
                &&& self.guardian.ledger.owner_total(owner)
                    < self.limits.max_foreign_per_owner_bytes
            },
            !self.is_foreign(owner) && !pressure_critical && self.guardian.workbench_bytes()
                < self.limits.max_storage_bytes ==> self.admission(pressure_critical, owner)
                == Admission::Own,
    {
    }

    /// Decides on a command.
    pub fn handle_command(&mut self, command: StorageCommand) -> (action: StorageAction)
        requires
            old(self).wf(),
            old(self).totals_fit(),
        ensures
            final(self).wf(),
            Self::command_effect(*old(self), *final(self), command, action),
    {
        match command {
            StorageCommand::Ingest { owner, pressure_critical, ttl_ms } => {
                self.current_tolerance_ms = ttl_ms;
                match self.admit_chunk(pressure_critical, &owner) {
                    Ok(foreign) => StorageAction::Reassemble { foreign },
                    Err(e) => StorageAction::Reply(Err(e)),
                }
            },
            StorageCommand::Retrieval { recording_id } => {
                if self.guardian.recording_logs.contains(&recording_id) {
                    StorageAction::ReadLog
                } else {
                    StorageAction::Nothing
                }
            },
            StorageCommand::GetShard { recording_id, sequence_id } => {
                match self.guardian.locate_shard(&recording_id, sequence_id) {
                    Ok(offset) => StorageAction::ReadAt { offset },
                    Err(_) => StorageAction::Nothing,
                }
            },
            StorageCommand::WriteShard { envelope, owner_dir } => self.write_shard(
                envelope,
                owner_dir.as_str(),
            ),
            StorageCommand::IngestEnvelope { envelope, ttl_ms } => {
                match self.guardian.plan_promotion(&envelope, ttl_ms) {
                    Ok(promotion) => StorageAction::Promote { envelope, promotion },
                    Err(e) => StorageAction::Reply(Err(e)),
                }
            },
            StorageCommand::EmergencySalvage => StorageAction::Salvage,
            StorageCommand::Revoke { recording_id, token_check, key_check } => {
                match self.authorize_revocation(&recording_id, token_check, key_check) {
                    Ok(()) => StorageAction::Execute,
                    Err(e) => StorageAction::Reply(Err(e)),
                }
            },
            StorageCommand::StartRecording { recording_id } => self.start_recording(
                recording_id,
                true,
            ),
            StorageCommand::StartRecordingWithOptions { recording_id, publishable } => {
                self.start_recording(recording_id, publishable)
            },
            StorageCommand::GetContentKey { recording_id, derived } => StorageAction::Key(
                self.guardian.resolve_encryption_key(&recording_id, derived),
            ),
            StorageCommand::ListRecordings => StorageAction::Names(
                self.guardian.list_all_recordings(),
            ),
            StorageCommand::DebugDeleteRecording { recording_id } => StorageAction::Deleted {
                log_path: self.guardian.debug_delete_recording(&recording_id),
            },
            StorageCommand::DebugRecordingInfo { recording_id } => {
                let (shards, has_key) = self.guardian.debug_recording_info(&recording_id);
                StorageAction::Info { shards, has_key }
            },
            StorageCommand::DebugVaultListing => StorageAction::ListVault,
            StorageCommand::GetRevocationTokens => StorageAction::ReadRevocations,
            StorageCommand::PersistPosterior => StorageAction::WritePosterior,
        }
    }
}

} // verus!
