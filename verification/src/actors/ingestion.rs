//! Ingestion: the gates that a chunk from the mesh passes, one after another,
//! before storage sees it, and what its outcome says about its sender.
use vstd::prelude::*;
use vstd::string::*;
use crate::evidence::{GuardianError, Offense};

verus! {

/// What the driver observed at the current gate.
#[derive(Debug)]
pub enum IngestionEvent {
    /// A chunk arrived on this topic.
    Arrived { topic: String },
    /// The traffic governor answered, after the throttle delay.
    TrafficChecked { accepted: bool },
    /// The chunk was decoded into its owner and its time of birth, or was malformed.
    Decoded { chunk: Option<(String, u64)> },
    /// The sender's bandwidth was charged and compared.
    BandwidthChecked { within: bool },
    /// The sender's coupling and the owner's standing were looked up.
    StandingChecked { coupled: bool, good_standing: bool },
    /// The clock was read. Without a reading the chunk counts as new.
    ClockRead { now_ms: Option<u64> },
    /// The current tolerance for late chunks.
    ToleranceRead { tolerance_ms: u64 },
    /// A slot was asked for.
    SlotAsked { granted: bool },
    /// Storage was sent the chunk, or was gone.
    Sent { delivered: bool },
    /// Storage answered, or went away without an answer.
    Replied { outcome: Option<Result<(), GuardianError>> },
}

/// What the driver does next.
#[derive(Debug)]
pub enum IngestionAction {
    /// Throttle, then ask the traffic governor.
    CheckTraffic,
    Decode,
    CheckBandwidth,
    CheckStanding,
    ReadClock,
    /// Record this age as latency pressure, then read the tolerance.
    RecordAge { age_ms: u64 },
    AskSlot,
    /// Record entry pressure and hand the chunk to storage with this lifetime.
    Store { ttl_secs: u64 },
    AwaitReply,
    /// Release the slot, record whether the sender's evidence was good, report
    /// the offense of the owner, if any, and record the time taken.
    Conclude { good: bool, owner: String, offense: Option<Offense> },
    /// Answer that the sender is not authorized, and stop.
    Refuse,
    /// Stop. The slot is released where one was granted; the time taken is
    /// recorded where the chunk was not dropped at a gate.
    Stop { release_slot: bool, record_time: bool },
}

/// Which gate a chunk stands at.
#[derive(Debug, Clone, Copy, PartialEq, Eq, Structural)]
pub enum Gate {
    Topic,
    Traffic,
    Format,
    Bandwidth,
    Standing,
    Clock,
    Tolerance,
    Slot,
    Delivery,
    Reply,
    Done,
}

/// What the gates compare with.
pub struct IngestionPolicy {
    pub video_topic: String,
    pub audio_topic: String,
    pub evidence_ttl_secs: u64,
}

/// A chunk on its way through the gates.
pub struct Ingestion {
    pub gate: Gate,
    /// Known once the chunk is decoded.
    pub owner: String,
    pub birth_ms: u64,
    /// Known once the clock was read.
    pub age_ms: u64,
}

/// The offense that a refusal by the vault stands for.
pub open spec fn offense_of(error: GuardianError) -> Option<Offense> {
    match error {
        GuardianError::VerificationFailed(_) => Some(Offense::InvalidSignature),
        GuardianError::InvalidSignature(_) => Some(Offense::InvalidSignature),
        GuardianError::QuotaExceeded(_) => Some(Offense::QuotaExceeded),
        GuardianError::ReplayDetected(_) => Some(Offense::ReplayAttack),
        GuardianError::AmbiguousOwnership => None,
        GuardianError::PolicyViolation(_) => Some(Offense::IdentityTheft),
        _ => Some(Offense::ProtocolViolation),
    }
}

/// Judges a refusal by the vault.
pub fn judge_violation(error: &GuardianError) -> (offense: Option<Offense>)
    ensures
        offense == offense_of(*error),
{
    match error {
        GuardianError::VerificationFailed(_) => Some(Offense::InvalidSignature),
        GuardianError::InvalidSignature(_) => Some(Offense::InvalidSignature),
        GuardianError::QuotaExceeded(_) => Some(Offense::QuotaExceeded),
        GuardianError::ReplayDetected(_) => Some(Offense::ReplayAttack),
        GuardianError::AmbiguousOwnership => None,
        GuardianError::PolicyViolation(_) => Some(Offense::IdentityTheft),
        _ => Some(Offense::ProtocolViolation),
    }
}

/// How old a chunk is; one from the future is new.
pub open spec fn age_at(now_ms: Option<u64>, birth_ms: u64) -> u64 {
    match now_ms {
        Some(now) => if now >= birth_ms {
            (now - birth_ms) as u64
        } else {
            0
        },
        None => 0,
    }
}

impl Ingestion {
    /// The event belongs where the chunk stands.
    pub open spec fn expects(&self, event: IngestionEvent) -> bool {
        match event {
            IngestionEvent::Arrived { .. } => self.gate == Gate::Topic,
            IngestionEvent::TrafficChecked { .. } => self.gate == Gate::Traffic,
            IngestionEvent::Decoded { .. } => self.gate == Gate::Format,
            IngestionEvent::BandwidthChecked { .. } => self.gate == Gate::Bandwidth,
            IngestionEvent::StandingChecked { .. } => self.gate == Gate::Standing,
            IngestionEvent::ClockRead { .. } => self.gate == Gate::Clock,
            IngestionEvent::ToleranceRead { .. } => self.gate == Gate::Tolerance,
            IngestionEvent::SlotAsked { .. } => self.gate == Gate::Slot,
            IngestionEvent::Sent { .. } => self.gate == Gate::Delivery,
            IngestionEvent::Replied { .. } => self.gate == Gate::Reply,
        }
    }

    /// The event lets the chunk through.
    pub open spec fn passes(&self, policy: IngestionPolicy, event: IngestionEvent) -> bool {
        match event {
            IngestionEvent::Arrived { topic } => topic@ == policy.video_topic@ || topic@
                == policy.audio_topic@,
            IngestionEvent::TrafficChecked { accepted } => accepted,
            IngestionEvent::Decoded { chunk } => chunk is Some,
            IngestionEvent::BandwidthChecked { within } => within,
            IngestionEvent::StandingChecked { coupled, good_standing } => coupled && good_standing,
            IngestionEvent::ClockRead { .. } => true,
            IngestionEvent::ToleranceRead { tolerance_ms } => self.age_ms <= tolerance_ms,
            IngestionEvent::SlotAsked { granted } => granted,
            IngestionEvent::Sent { delivered } => delivered,
            IngestionEvent::Replied { .. } => false,
        }
    }

    /// What comes behind this gate.
    pub open spec fn next_gate(gate: Gate) -> Gate {
        match gate {
            Gate::Topic => Gate::Traffic,
            Gate::Traffic => Gate::Format,
            Gate::Format => Gate::Bandwidth,
            Gate::Bandwidth => Gate::Standing,
            Gate::Standing => Gate::Clock,
            Gate::Clock => Gate::Tolerance,
            Gate::Tolerance => Gate::Slot,
            Gate::Slot => Gate::Delivery,
            Gate::Delivery => Gate::Reply,
            _ => Gate::Done,
        }
    }

    /// What is asked where a chunk has come to.
    pub open spec fn asked_at(self, policy: IngestionPolicy) -> IngestionAction {
        match self.gate {
            Gate::Traffic => IngestionAction::CheckTraffic,
            Gate::Format => IngestionAction::Decode,
            Gate::Bandwidth => IngestionAction::CheckBandwidth,
            Gate::Standing => IngestionAction::CheckStanding,
            Gate::Clock => IngestionAction::ReadClock,
            Gate::Tolerance => IngestionAction::RecordAge { age_ms: self.age_ms },
            Gate::Slot => IngestionAction::AskSlot,
            Gate::Delivery => IngestionAction::Store { ttl_secs: policy.evidence_ttl_secs },
            _ => IngestionAction::AwaitReply,
        }
    }

    /// What the step from `before` to `after` on an event is.
    pub open spec fn step_effect(
        before: Self,
        after: Self,
        policy: IngestionPolicy,
        event: IngestionEvent,
        action: IngestionAction,
    ) -> bool {
        if before.passes(policy, event) {
            &&& after.gate == Self::next_gate(before.gate)
            &&& match event {
                IngestionEvent::Decoded { chunk: Some((owner, birth)) } => after.owner == owner
                    && after.birth_ms == birth && after.age_ms == before.age_ms,
                IngestionEvent::ClockRead { now_ms } => after.owner == before.owner
                    && after.birth_ms == before.birth_ms && after.age_ms == age_at(
                    now_ms,
                    before.birth_ms,
                ),
                _ => after.owner == before.owner && after.birth_ms == before.birth_ms
                    && after.age_ms == before.age_ms,
            }
            &&& action == after.asked_at(policy)
        } else {
            &&& after == (Ingestion { gate: Gate::Done, ..before })
            &&& match event {
                IngestionEvent::Decoded { .. } => action == (IngestionAction::Stop {
                    release_slot: false,
                    record_time: true,
                }),
                IngestionEvent::StandingChecked { .. } => action == IngestionAction::Refuse,
                IngestionEvent::Sent { .. } => action == (IngestionAction::Stop {
                    release_slot: true,
                    record_time: false,
                }),
                IngestionEvent::Replied { outcome: None } => action == (IngestionAction::Stop {
                    release_slot: true,
                    record_time: true,
                }),
                IngestionEvent::Replied { outcome: Some(Ok(())) } => {
                    action matches IngestionAction::Conclude { good, owner, offense } && good
                        && owner@ == before.owner@ && offense is None
                },
                IngestionEvent::Replied { outcome: Some(Err(e)) } => {
                    action matches IngestionAction::Conclude { good, owner, offense } && !good
                        && owner@ == before.owner@ && offense == offense_of(e)
                },
                _ => action == (IngestionAction::Stop { release_slot: false, record_time: false }),
            }
        }
    }

    /// A chunk before the first gate.
    pub fn new() -> (chunk: Self)
        ensures
            chunk.gate == Gate::Topic,
            chunk.owner@ == Seq::<char>::empty(),
            chunk.birth_ms == 0,
            chunk.age_ms == 0,
    {
        Ingestion { gate: Gate::Topic, owner: String::new(), birth_ms: 0, age_ms: 0 }
    }

    /// Takes the chunk one gate further, or turns it away.
    pub fn step(&mut self, policy: &IngestionPolicy, event: IngestionEvent) -> (action:
        IngestionAction)
        requires
            old(self).expects(event),
        ensures
            Self::step_effect(*old(self), *final(self), *policy, event, action),
    {
        let dropped = IngestionAction::Stop { release_slot: false, record_time: false };
        match event {
            IngestionEvent::Arrived { topic } => {
                if topic == policy.video_topic || topic == policy.audio_topic {
                    self.gate = Gate::Traffic;
                    IngestionAction::CheckTraffic
                } else {
                    self.gate = Gate::Done;
                    dropped
                }
            },
            IngestionEvent::TrafficChecked { accepted } => {
                if accepted {
                    self.gate = Gate::Format;
                    IngestionAction::Decode
                } else {
                    self.gate = Gate::Done;
                    dropped
                }
            },
            IngestionEvent::Decoded { chunk } => match chunk {
                Some((owner, birth)) => {
                    self.gate = Gate::Bandwidth;
                    self.owner = owner;
                    self.birth_ms = birth;
                    IngestionAction::CheckBandwidth
                },
                None => {
                    self.gate = Gate::Done;
                    IngestionAction::Stop { release_slot: false, record_time: true }
                },
            },
            IngestionEvent::BandwidthChecked { within } => {
                if within {
                    self.gate = Gate::Standing;
                    IngestionAction::CheckStanding
                } else {
                    self.gate = Gate::Done;
                    dropped
                }
            },
            IngestionEvent::StandingChecked { coupled, good_standing } => {
                if coupled && good_standing {
                    self.gate = Gate::Clock;
                    IngestionAction::ReadClock
                } else {
                    self.gate = Gate::Done;
                    IngestionAction::Refuse
                }
            },
            IngestionEvent::ClockRead { now_ms } => {
                let now: u64 = match now_ms {
                    Some(n) => n,
                    None => self.birth_ms,
                };
                self.age_ms = now.saturating_sub(self.birth_ms);
                self.gate = Gate::Tolerance;
                IngestionAction::RecordAge { age_ms: self.age_ms }
            },
            IngestionEvent::ToleranceRead { tolerance_ms } => {
                if self.age_ms > tolerance_ms {
                    self.gate = Gate::Done;
                    dropped
                } else {
                    self.gate = Gate::Slot;
                    IngestionAction::AskSlot
                }
            },
            IngestionEvent::SlotAsked { granted } => {
                if granted {
                    self.gate = Gate::Delivery;
                    IngestionAction::Store { ttl_secs: policy.evidence_ttl_secs }
                } else {
                    self.gate = Gate::Done;
                    dropped
                }
            },
            IngestionEvent::Sent { delivered } => {
                if delivered {
                    self.gate = Gate::Reply;
                    IngestionAction::AwaitReply
                } else {
                    self.gate = Gate::Done;
                    IngestionAction::Stop { release_slot: true, record_time: false }
                }
            },
            IngestionEvent::Replied { outcome } => {
                self.gate = Gate::Done;
                match outcome {
                    Some(Ok(())) => IngestionAction::Conclude {
                        good: true,
                        owner: self.owner.clone(),
                        offense: None,
                    },
                    Some(Err(e)) => IngestionAction::Conclude {
                        good: false,
                        owner: self.owner.clone(),
                        offense: judge_violation(&e),
                    },
                    None => IngestionAction::Stop { release_slot: true, record_time: true },
                }
            },
        }
    }

    /// `states`, `events` and `actions` are a run of a chunk from the first gate.
    pub open spec fn is_run(
        policy: IngestionPolicy,
        states: Seq<Ingestion>,
        events: Seq<IngestionEvent>,
        actions: Seq<IngestionAction>,
    ) -> bool {
        &&& states.len() == events.len() + 1
        &&& actions.len() == events.len()
        &&& states[0].gate == Gate::Topic
        &&& forall|i: int|
            0 <= i < events.len() ==> #[trigger] states[i].expects(events[i]) && Self::step_effect(
                states[i],
                states[i + 1],
                policy,
                events[i],
                actions[i],
            )
    }

    /// How many gates lie before this one.
    pub open spec fn depth(gate: Gate) -> int {
        match gate {
            Gate::Topic => 0,
            Gate::Traffic => 1,
            Gate::Format => 2,
            Gate::Bandwidth => 3,
            Gate::Standing => 4,
            Gate::Clock => 5,
            Gate::Tolerance => 6,
            Gate::Slot => 7,
            Gate::Delivery => 8,
            Gate::Reply => 9,
            Gate::Done => 10,
        }
    }

    proof fn lemma_run_depth(
        policy: IngestionPolicy,
        states: Seq<Ingestion>,
        events: Seq<IngestionEvent>,
        actions: Seq<IngestionAction>,
        k: int,
    )
        requires
            Self::is_run(policy, states, events, actions),
            0 <= k < states.len(),
        ensures
            states[k].gate != Gate::Done ==> Self::depth(states[k].gate) == k,
            forall|i: int|
                0 <= i < k && states[k].gate != Gate::Done ==> (#[trigger] states[i]).passes(
                    policy,
                    events[i],
                ),
        decreases k,
    {
        if k > 0 {
            Self::lemma_run_depth(policy, states, events, actions, k - 1);
            assert(states[k - 1].expects(events[k - 1]));
        }
    }

    /// A chunk to which every gate is open reaches storage, with the lifetime of
    /// evidence: it came on a media topic, the traffic was accepted, it could be
    /// decoded, the bandwidth sufficed, sender and owner stand well, it is no older
    /// than is tolerated, and there was a slot. Its age is the time since its birth,
    /// none where it is from the future or no clock could be read.
    pub proof fn law_open_gates_lead_to_storage(
        policy: IngestionPolicy,
        states: Seq<Ingestion>,
        events: Seq<IngestionEvent>,
        actions: Seq<IngestionAction>,
        owner: String,
        birth_ms: u64,
        now_ms: Option<u64>,
        tolerance_ms: u64,
    )
        requires
            Self::is_run(policy, states, events, actions),
            events.len() >= 8,
            events[0] matches IngestionEvent::Arrived { topic } && (topic@ == policy.video_topic@
                || topic@ == policy.audio_topic@),
            events[1] == (IngestionEvent::TrafficChecked { accepted: true }),
            events[2] == (IngestionEvent::Decoded { chunk: Some((owner, birth_ms)) }),
            events[3] == (IngestionEvent::BandwidthChecked { within: true }),
            events[4] == (IngestionEvent::StandingChecked { coupled: true, good_standing: true }),
            events[5] == (IngestionEvent::ClockRead { now_ms }),
            events[6] == (IngestionEvent::ToleranceRead { tolerance_ms }),
            events[7] == (IngestionEvent::SlotAsked { granted: true }),
            now_ms matches Some(now) ==> now - birth_ms <= tolerance_ms,
        ensures
            actions[7] == (IngestionAction::Store { ttl_secs: policy.evidence_ttl_secs }),
            states[8].owner == owner,
            actions[5] matches IngestionAction::RecordAge { age_ms } && age_ms == match now_ms {
                Some(now) => if now < birth_ms {
                    0
                } else {
                    now - birth_ms
                },
                None => 0,
            },
    {
        assert(states[0].expects(events[0]));
        assert(states[1].expects(events[1]));
        assert(states[2].expects(events[2]));
        assert(states[3].expects(events[3]));
        assert(states[4].expects(events[4]));
        assert(states[5].expects(events[5]));
        assert(states[6].expects(events[6]));
        assert(states[7].expects(events[7]));
    }

    /// A gate that is closed ends the way of a chunk: a wrong topic, traffic or
    /// bandwidth that is used up, an age that is not tolerated or no slot drop it in
    /// silence, and a sender or owner in bad standing is told so.
    pub proof fn law_closed_gates_end_the_way(
        before: Self,
        after: Self,
        policy: IngestionPolicy,
        event: IngestionEvent,
        action: IngestionAction,
    )
        requires
            Self::step_effect(before, after, policy, event, action),
        ensures
            event matches IngestionEvent::Arrived { topic } ==> (topic@ != policy.video_topic@
                && topic@ != policy.audio_topic@ <==> action is Stop),
            event matches IngestionEvent::TrafficChecked { accepted } ==> (!accepted <==> action
                is Stop),
            event matches IngestionEvent::Decoded { chunk } ==> (chunk is None <==> action is Stop),
            event matches IngestionEvent::BandwidthChecked { within } ==> (!within <==> action
                is Stop),
            event matches IngestionEvent::StandingChecked { coupled, good_standing } ==> (!(coupled
                && good_standing) <==> action is Refuse),
            event matches IngestionEvent::ToleranceRead { tolerance_ms } ==> (before.age_ms
                > tolerance_ms <==> action is Stop),
            event matches IngestionEvent::SlotAsked { granted } ==> (!granted <==> action is Stop),
            event matches IngestionEvent::Sent { delivered } ==> (!delivered <==> action is Stop),
            action is Stop || action is Refuse || action is Conclude ==> after.gate == Gate::Done,
            action matches IngestionAction::Stop { release_slot, .. } ==> (release_slot <==> event
                is Sent || event is Replied),
    {
    }

    /// What storage said is passed on: good evidence is credited, bad evidence is
    /// charged to its owner for what was wrong with it, and the slot is free again
    /// in any case.
    pub proof fn law_replies_are_credited_or_charged(
        before: Self,
        after: Self,
        policy: IngestionPolicy,
        outcome: Option<Result<(), GuardianError>>,
        action: IngestionAction,
    )
        requires
            Self::step_effect(
                before,
                after,
                policy,
                IngestionEvent::Replied { outcome },
                action,
            ),
        ensures
            outcome is None <==> action == (IngestionAction::Stop {
                release_slot: true,
                record_time: true,
            }),
            outcome is Some <==> action is Conclude,
            action matches IngestionAction::Conclude { good, owner, offense } ==> {
                &&& owner@ == before.owner@
                &&& good <==> outcome->0 is Ok
                &&& good ==> offense is None
                &&& outcome->0 matches Err(e) ==> {
                    &&& e is VerificationFailed || e is InvalidSignature <==> offense == Some(
                        Offense::InvalidSignature,
                    )
                    &&& e is QuotaExceeded <==> offense == Some(Offense::QuotaExceeded)
                    &&& e is ReplayDetected <==> offense == Some(Offense::ReplayAttack)
                    &&& e is PolicyViolation <==> offense == Some(Offense::IdentityTheft)
                    &&& e is AmbiguousOwnership <==> offense is None
                    &&& e is StorageFailure || e is SerializationError
                        || e is ChainIntegrityViolation || e is RecordingRevoked
                        || e is WalWriteFailed <==> offense == Some(Offense::ProtocolViolation)
                }
            },
    {
    }

    /// No chunk reaches storage but through every gate: where a run stores its
    /// chunk, the topic, the traffic, the format, the bandwidth, the standing, the
    /// age and the slot were asked about one after another, and each answer let it
    /// pass.
    pub proof fn law_storage_is_behind_every_gate(
        policy: IngestionPolicy,
        states: Seq<Ingestion>,
        events: Seq<IngestionEvent>,
        actions: Seq<IngestionAction>,
        k: int,
    )
        requires
            Self::is_run(policy, states, events, actions),
            0 <= k < actions.len(),
            actions[k] is Store,
        ensures
            k == 7,
            forall|i: int| 0 <= i <= 7 ==> (#[trigger] states[i]).passes(policy, events[i]),
            events[0] is Arrived,
            events[1] is TrafficChecked,
            events[2] is Decoded,
            events[3] is BandwidthChecked,
            events[4] is StandingChecked,
            events[5] is ClockRead,
            events[6] is ToleranceRead,
            events[7] is SlotAsked,
    {
        assert(states[k].expects(events[k]));
        assert(Self::step_effect(states[k], states[k + 1], policy, events[k], actions[k]));
        assert(states[k].passes(policy, events[k]));
        Self::lemma_run_depth(policy, states, events, actions, k);
        assert(states[k].gate == Gate::Slot);
        assert forall|i: int| 0 <= i <= 7 implies Self::depth((#[trigger] states[i]).gate) == i by {
            Self::lemma_run_depth(policy, states, events, actions, i);
            assert(states[i].passes(policy, events[i]));
            assert(states[i].expects(events[i]));
        }
        assert(states[0].expects(events[0]));
        assert(states[1].expects(events[1]));
        assert(states[2].expects(events[2]));
        assert(states[3].expects(events[3]));
        assert(states[4].expects(events[4]));
        assert(states[5].expects(events[5]));
        assert(states[6].expects(events[6]));
    }
}

} // verus!
