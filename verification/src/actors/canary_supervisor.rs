//! The silent canary: it remembers who stands behind a peer, watches community
//! members while a recording runs, and raises the alarm when they fall silent.
use vstd::prelude::*;
use crate::actors::eclipse_router::remember_did;
use crate::actors::mesh_policy::{community_keys, CommunityId};
use crate::aged_map::Aged;
use crate::text_map::TextMap;
use crate::wire;

verus! {

/// What happened.
#[derive(Debug)]
pub enum CanaryCommand {
    /// A shard arrived. `verified` tells that its owner's effective trust is
    /// "verified" or better.
    RegisterContribution { origin: String, envelope_did: String, recording_id: String, verified: bool },
    OnPeerReconnected { peer: String },
    /// A peer is gone. `watching` tells that the monitor watches anybody.
    PeerDisconnected { peer: String, watching: bool },
    RecordingStarted { recording_id: String },
    RecordingStopped,
}

/// A contribution for the monitor to watch.
#[derive(Debug)]
pub struct Contribution {
    pub origin: String,
    pub did: String,
    pub recording_id: String,
}

/// What is done about it.
#[derive(Debug)]
pub enum CanaryAction {
    /// Tell the topology side the identity behind a new peer, and let the monitor
    /// watch the contribution; either only where it is there.
    Contributed { learned: Option<(String, String)>, watch: Option<Contribution> },
    /// The monitor forgets that the peer may be dark.
    Reconnected(String),
    /// The monitor notes the disconnect and, where the peer is stale, confirms it.
    Suspect(String),
    /// The monitor forgets everything.
    Clear,
    Nothing,
}

/// Members of the community fell silent.
#[derive(Debug)]
pub struct CanaryAlert {
    pub silent_peers: Vec<String>,
    pub recordings_at_risk: Vec<String>,
    pub peers_remaining: usize,
}

/// A step of the answer to an alert.
#[derive(Debug)]
pub enum AlertStep {
    FindProviders(String),
    EmergencySalvage,
    Broadcast { silent_count: u32 },
}

/// The state of the canary supervisor.
pub struct CanarySupervisor {
    pub peer_did_cache: TextMap<Aged<String>>,
    pub peer_did_cache_seq: u64,
    pub recording_active: bool,
}

impl CanarySupervisor {
    pub open spec fn wf(&self) -> bool {
        self.peer_did_cache.wf()
    }

    pub fn new() -> (supervisor: Self)
        ensures
            supervisor.wf(),
            supervisor.peer_did_cache@ == Map::<Seq<char>, Aged<String>>::empty(),
            supervisor.peer_did_cache_seq == 0,
            !supervisor.recording_active,
    {
        CanarySupervisor {
            peer_did_cache: TextMap::new(),
            peer_did_cache_seq: 0,
            recording_active: false,
        }
    }

    /// What each command does and what is done about it.
    pub open spec fn command_effect(
        before: Self,
        after: Self,
        command: CanaryCommand,
        action: CanaryAction,
    ) -> bool {
        match command {
            CanaryCommand::RegisterContribution { origin, envelope_did, recording_id, verified } => {
                &&& after.recording_active == before.recording_active
                &&& crate::actors::eclipse_router::did_is_cached(
                    before.peer_did_cache@,
                    before.peer_did_cache_seq,
                    after.peer_did_cache@,
                    after.peer_did_cache_seq,
                    origin@,
                    envelope_did,
                )
                &&& action matches CanaryAction::Contributed { learned, watch } && {
                    &&& learned == if before.peer_did_cache@.dom().contains(origin@) {
                        None
                    } else {
                        Some((origin, envelope_did))
                    }
                    &&& watch == if before.recording_active && verified {
                        Some(Contribution { origin, did: envelope_did, recording_id })
                    } else {
                        None
                    }
                }
            },
            CanaryCommand::OnPeerReconnected { peer } => after == before && action
                == CanaryAction::Reconnected(peer),
            CanaryCommand::PeerDisconnected { peer, watching } => after == before && action
                == if before.recording_active && watching {
                CanaryAction::Suspect(peer)
            } else {
                CanaryAction::Nothing
            },
            CanaryCommand::RecordingStarted { recording_id: _ } => after == (CanarySupervisor {
                recording_active: true,
                ..before
            }) && action is Clear,
            CanaryCommand::RecordingStopped => after == (CanarySupervisor {
                recording_active: false,
                ..before
            }) && action is Clear,
        }
    }

    /// Handles a command.
    pub fn handle_command(&mut self, command: CanaryCommand) -> (action: CanaryAction)
        requires
            old(self).wf(),
        ensures
            final(self).wf(),
            Self::command_effect(*old(self), *final(self), command, action),
    {
        match command {
            CanaryCommand::RegisterContribution { origin, envelope_did, recording_id, verified } => {
                let was_new = !self.peer_did_cache.contains(&origin);
                remember_did(
                    &mut self.peer_did_cache,
                    &mut self.peer_did_cache_seq,
                    origin.clone(),
                    envelope_did.clone(),
                );
                let learned = if was_new {
                    Some((origin.clone(), envelope_did.clone()))
                } else {
                    None
                };
                let watch = if self.recording_active && verified {
                    Some(Contribution { origin, did: envelope_did, recording_id })
                } else {
                    None
                };
                CanaryAction::Contributed { learned, watch }
            },
            CanaryCommand::OnPeerReconnected { peer } => CanaryAction::Reconnected(peer),
            CanaryCommand::PeerDisconnected { peer, watching } => {
                if self.recording_active && watching {
                    CanaryAction::Suspect(peer)
                } else {
                    CanaryAction::Nothing
                }
            },
            CanaryCommand::RecordingStarted { recording_id: _ } => {
                self.recording_active = true;
                CanaryAction::Clear
            },
            CanaryCommand::RecordingStopped => {
                self.recording_active = false;
                CanaryAction::Clear
            },
        }
    }

    /// Without a recording nobody is watched and nobody is suspected.
    pub proof fn law_idle_canary_is_silent(
        before: Self,
        after: Self,
        command: CanaryCommand,
        action: CanaryAction,
    )
        requires
            !before.recording_active,
            Self::command_effect(before, after, command, action),
        ensures
            action !is Suspect,
            action matches CanaryAction::Contributed { learned, watch } ==> watch is None,
    {
    }

    /// While a recording runs every shard of a trusted owner is watched, under its
    /// sender, owner and recording, and every disconnect is suspect once anybody is
    /// watched. The topology side hears of an identity exactly when its peer is new.
    /// A recording that starts or stops clears the watch and does nothing else.
    pub proof fn law_recordings_are_watched_over(
        before: Self,
        after: Self,
        command: CanaryCommand,
        action: CanaryAction,
    )
        requires
            Self::command_effect(before, after, command, action),
        ensures
            command matches CanaryCommand::RegisterContribution {
                origin,
                envelope_did,
                recording_id,
                verified,
            } ==> (action matches CanaryAction::Contributed { learned, watch } && {
                &&& watch is Some <==> before.recording_active && verified
                &&& watch is Some ==> watch->0.origin == origin && watch->0.did == envelope_did
                    && watch->0.recording_id == recording_id
                &&& learned is Some <==> !before.peer_did_cache@.dom().contains(origin@)
                &&& learned is Some ==> learned->0 == (origin, envelope_did)
                &&& after.peer_did_cache@.dom().contains(origin@)
                &&& after.peer_did_cache@[origin@].value == envelope_did
            }),
            command matches CanaryCommand::PeerDisconnected { peer, watching } ==> {
                &&& action == CanaryAction::Suspect(peer) <==> before.recording_active && watching
                &&& !(action is Suspect) ==> action is Nothing
            },
            command matches CanaryCommand::OnPeerReconnected { peer } ==> action
                == CanaryAction::Reconnected(peer),
            command is RecordingStarted ==> action is Clear && after.recording_active,
            command is RecordingStopped ==> action is Clear && !after.recording_active,
            !(command is RecordingStarted || command is RecordingStopped) ==> after.recording_active
                == before.recording_active,
            !(command is RegisterContribution) ==> after.peer_did_cache == before.peer_did_cache,
    {
        match command {
            CanaryCommand::RegisterContribution { origin, envelope_did, .. } => {
                crate::actors::eclipse_router::law_learned_identities_are_known(
                    before.peer_did_cache@,
                    before.peer_did_cache_seq,
                    after.peer_did_cache@,
                    after.peer_did_cache_seq,
                    origin@,
                    envelope_did,
                    origin@,
                );
            },
            _ => {},
        }
    }

    /// Every recording at risk is looked for, in its order; a node salvages exactly
    /// where it is the last one left; and the community hears how many fell silent.
    pub proof fn law_alerts_are_answered_in_full(alert: CanaryAlert)
        requires
            alert.silent_peers@.len() <= u32::MAX,
        ensures
            ({
                let steps = Self::alert_steps(alert);
                let n = alert.recordings_at_risk@.len() as int;
                &&& forall|i: int|
                    0 <= i < n ==> (#[trigger] steps[i]) == AlertStep::FindProviders(
                        alert.recordings_at_risk@[i],
                    )
                &&& steps.contains(AlertStep::EmergencySalvage) <==> alert.peers_remaining == 0
                &&& steps.len() == if alert.peers_remaining == 0 {
                    n + 2
                } else {
                    n + 1
                }
                &&& steps.last() matches AlertStep::Broadcast { silent_count } && silent_count
                    == alert.silent_peers@.len()
            }),
    {
        let steps = Self::alert_steps(alert);
        let n = alert.recordings_at_risk@.len() as int;
        if alert.peers_remaining == 0 {
            assert(steps[n] == AlertStep::EmergencySalvage);
        } else if steps.contains(AlertStep::EmergencySalvage) {
            let i = steps.index_of(AlertStep::EmergencySalvage);
            assert(steps[i] == AlertStep::EmergencySalvage);
        }
    }

    /// The answer to an alert: every recording at risk is looked for again, a
    /// node that stands alone salvages, and the community is told.
    pub open spec fn alert_steps(alert: CanaryAlert) -> Seq<AlertStep> {
        let searches = alert.recordings_at_risk@.map_values(
            |id: String| AlertStep::FindProviders(id),
        );
        let salvage = if alert.peers_remaining == 0 {
            seq![AlertStep::EmergencySalvage]
        } else {
            Seq::empty()
        };
        searches + salvage + seq![
            AlertStep::Broadcast { silent_count: alert.silent_peers@.len() as u32 },
        ]
    }

    /// What goes out over the mesh names nobody: the broadcast is the last step, and
    /// two alerts with equally many silent peers broadcast the same, whoever fell
    /// silent and whatever is at risk.
    pub proof fn law_broadcast_names_nobody(a: CanaryAlert, b: CanaryAlert)
        requires
            a.silent_peers@.len() == b.silent_peers@.len(),
        ensures
            Self::alert_steps(a).last() == Self::alert_steps(b).last(),
            Self::alert_steps(a).last() is Broadcast,
            forall|i: int|
                0 <= i < Self::alert_steps(a).len() - 1 ==> (
                #[trigger] Self::alert_steps(a)[i]) !is Broadcast,
    {
    }

    pub fn handle_canary_alert(alert: &CanaryAlert) -> (steps: Vec<AlertStep>)
        ensures
            steps@ == Self::alert_steps(*alert),
    {
        let mut steps: Vec<AlertStep> = Vec::new();
        let mut i: usize = 0;
        while i < alert.recordings_at_risk.len()
            invariant
                i <= alert.recordings_at_risk@.len(),
                steps@ =~= alert.recordings_at_risk@.subrange(0, i as int).map_values(
                    |id: String| AlertStep::FindProviders(id),
                ),
            decreases alert.recordings_at_risk@.len() - i,
        {
            steps.push(AlertStep::FindProviders(alert.recordings_at_risk[i].clone()));
            i += 1;
        }
        assert(alert.recordings_at_risk@.subrange(0, i as int) =~= alert.recordings_at_risk@);
        if alert.peers_remaining == 0 {
            steps.push(AlertStep::EmergencySalvage);
        }
        let silent_count: u32 = #[verifier::truncate] (alert.silent_peers.len() as u32);
        steps.push(AlertStep::Broadcast { silent_count });
        assert(steps@ =~= Self::alert_steps(*alert));
        steps
    }

    /// `plaintext` is what is told of so many silent peers.
    pub open spec fn is_alert(silent_count: u32, detected_at: u64, plaintext: Seq<u8>) -> bool {
        plaintext == wire::varint(silent_count as nat) + wire::varint(detected_at as nat)
    }

    /// Whoever opens an alert learns how many fell silent, and when: no other count or
    /// time is told in the same bytes.
    pub proof fn law_alerts_tell_count_and_time(
        silent_count: u32,
        detected_at: u64,
        other_count: u32,
        other_time: u64,
        plaintext: Seq<u8>,
    )
        requires
            Self::is_alert(silent_count, detected_at, plaintext),
            Self::is_alert(other_count, other_time, plaintext),
        ensures
            silent_count == other_count,
            detected_at == other_time,
    {
        let (x, y) = (wire::varint(detected_at as nat), wire::varint(other_time as nat));
        wire::lemma_varint_ends_itself(silent_count as nat, other_count as nat, x, y);
        let none = Seq::<u8>::empty();
        assert(x + none =~= x);
        assert(y + none =~= y);
        wire::lemma_varint_ends_itself(detected_at as nat, other_time as nat, none, none);
    }

    /// What is told to the community, before encryption: how many fell silent,
    /// and when that was found.
    pub fn alert_plaintext(silent_count: u32, detected_at: u64) -> (plaintext: Vec<u8>)
        ensures
            Self::is_alert(silent_count, detected_at, plaintext@),
    {
        wire::encode_count_at(silent_count, detected_at)
    }

    /// The keys of an alert, one for each community.
    pub open spec fn are_alert_keys(keys: Seq<[u8; 32]>, communities: Seq<CommunityId>) -> bool {
        &&& keys.len() == communities.len()
        &&& forall|i: int|
            0 <= i < keys.len() ==> (#[trigger] keys[i])@ == crate::crypto::blake3_derived_key(
                "phalanx.canary.v1.community-alert"@,
                communities[i]@,
            )
    }

    /// Every member of a community can open its alerts, whichever other communities there
    /// are: the key rests on the community alone, so that two nodes have the same one.
    pub proof fn law_members_share_their_alert_key(
        keys: Seq<[u8; 32]>,
        communities: Seq<CommunityId>,
        other_keys: Seq<[u8; 32]>,
        other_communities: Seq<CommunityId>,
        i: int,
        k: int,
    )
        requires
            Self::are_alert_keys(keys, communities),
            Self::are_alert_keys(other_keys, other_communities),
            0 <= i < communities.len(),
            0 <= k < other_communities.len(),
            communities[i]@ == other_communities[k]@,
        ensures
            keys.len() == communities.len(),
            other_keys.len() == other_communities.len(),
            keys[i]@ == other_keys[k]@,
            keys[i]@ == crate::crypto::blake3_derived_key(
                "phalanx.canary.v1.community-alert"@,
                communities[i]@,
            ),
    {
    }

    /// The keys that an alert is encrypted with, one for each community.
    pub fn alert_keys(communities: &Vec<CommunityId>) -> (keys: Vec<[u8; 32]>)
        ensures
            Self::are_alert_keys(keys@, communities@),
    {
        community_keys("phalanx.canary.v1.community-alert", communities)
    }
}

} // verus!
