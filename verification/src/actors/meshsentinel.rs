//! The sentinel: it routes what happens on the network to the actors, holds the
//! recording session, and lets one playback run at a time.
use vstd::prelude::*;
use crate::actors::eclipse_router::AdmitOutcome;
use crate::actors::egress::{EgressCommand, PendingEgress};
use crate::actors::recording_session::{ProximityWitness, RecordingSessionState, TransportClass};
use crate::config::NodeConfig;
use crate::evidence::Envelope;
use crate::paths;
use crate::text;

verus! {

/// How many commands the mailboxes of the pipeline hold.
pub const PIPELINE_MAILBOX: usize = 100;

/// How many commands the sentinel's own mailbox holds.
pub const SENTINEL_MAILBOX: usize = 32;

/// The clock tolerance that the vault starts with, in milliseconds.
pub const INITIAL_TOLERANCE_MS: u64 = 1000;

/// A message may be this many times as long as a chunk.
pub const OVERSIZE_FACTOR: usize = 2;

/// A chunk that found no place presses on memory like this many of the largest.
pub const PRESSURE_FACTOR: usize = 200;

/// A playback is still running.
#[derive(Debug, Clone, Copy, PartialEq, Eq, Structural)]
pub struct AlreadyPlaying;

impl AlreadyPlaying {
    pub fn message(&self) -> (s: String)
        ensures
            s@ == "a playback session is already active"@,
    {
        "a playback session is already active".to_owned()
    }
}

/// The sizes and places that the parts of a node are wired with.
#[derive(Debug)]
pub struct SentinelPlan {
    pub video_mailbox: usize,
    pub audio_mailbox: usize,
    pub proximity_mailbox: usize,
    pub storage_mailbox: usize,
    pub ingestion_mailbox: usize,
    pub ingress_capacity: usize,
    pub egress_mailbox: usize,
    pub retrieval_mailbox: usize,
    pub trust_mailbox: usize,
    pub discovery_mailbox: usize,
    pub commit_mailbox: usize,
    pub sentinel_mailbox: usize,
    pub initial_tolerance_ms: u64,
    /// Where unsent evidence is kept.
    pub outbound_wal_dir: String,
    /// The key of what is sent and played back: that of the vault.
    pub network_key: [u8; 32],
}

/// What happened on the network. Requests and receipts are kept in their
/// serialized form.
#[derive(Debug)]
pub enum NetworkEvent {
    DataReceived { origin: String, topic: String, data: Vec<u8> },
    PeerDiscovered { peer: String, transport: TransportClass },
    RecordingRequested { origin: String, request: Vec<u8>, channel_id: String },
    ProvidersDiscovered { recording_id: String, providers: Vec<String> },
    ArchiveRequested { channel_id: String },
    ArchiveReceiptReceived { receipt: Vec<u8> },
    ShardResponseReceived { origin: String, envelopes: Vec<Envelope> },
    PeerDisconnected { peer: String },
    BleAuthChallengeReceived,
    BleAuthResponseReceived,
    Shutdown,
}

/// What is done about it.
#[derive(Debug)]
pub enum SentinelAction {
    Ignore,
    /// To the vitals actor; it may be lost.
    Heartbeat { origin: String, data: Vec<u8> },
    /// To the revocation actor; it must not be lost.
    RevocationToken { origin: String, data: Vec<u8> },
    /// The volume is noted and the chunk dropped.
    Saturated { origin: String, size: usize },
    /// The volume is noted and the chunk goes to ingestion.
    Ingest { origin: String, topic: String, data: Vec<u8> },
    /// Ask the topology gate; report with `on_admission`.
    TryAdmit { peer: String, transport: TransportClass, balance_percent: u32 },
    Retrieve { origin: String, request: Vec<u8>, channel_id: String },
    Providers { recording_id: String, remote: Vec<String> },
    Receipt { receipt: Vec<u8> },
    /// Each shard is handed on as `handle_shard_response` says.
    StoreShards { origin: String, envelopes: Vec<Envelope> },
    /// Its observations are forgotten; topology and canary are told.
    PeerGone { peer: String },
    /// What egress still holds is saved.
    Salvage,
}

/// What follows an admission.
#[derive(Debug)]
pub struct AfterAdmission {
    /// The canary forgets its doubts about the peer.
    pub reconnected: bool,
    /// The peer is told of all revocations.
    pub replay_revocations: bool,
}

/// Who is told of providers.
#[derive(Debug, Clone, Copy, PartialEq, Eq, Structural)]
pub enum ProvidersTenant {
    Nobody,
    Playback,
    Recovery,
}

/// What the outside asks of the sentinel.
#[derive(Debug)]
pub enum SentinelCommand {
    SetRecordingState { id: Option<String> },
    SpawnRecovery,
    /// `prior_finished` tells that the playback before, if any, has ended.
    SpawnPlayback { prior_finished: bool },
}

/// What is done about it.
#[derive(Debug)]
pub enum SentinelReply {
    /// The canary is told.
    Started(String),
    /// The canary is told, and the witnesses are sealed and sent.
    Stopped(Vec<ProximityWitness>),
    Recovery,
    Playback(Result<(), AlreadyPlaying>),
}

/// What came of asking egress for what it still holds.
#[derive(Debug)]
pub enum SalvageReply {
    /// Egress is gone.
    Unreachable,
    /// It did not answer in time.
    TimedOut,
    /// It ended without an answer.
    Abandoned,
    Drained(Vec<PendingEgress>),
}

/// The state of the sentinel.
pub struct MeshSentinel {
    pub max_chunk_size_bytes: usize,
    pub control_topic: String,
    pub revocation_topic: String,
    pub local_did: String,
    pub local_address: String,
    pub has_local_mesh: bool,
    pub session: RecordingSessionState,
    /// There is a playback, perhaps one that has ended.
    pub playback_slot: bool,
    pub providers: ProvidersTenant,
}

/// The share of local peers, in percent, that the topology aims at: little
/// without local radio, more while the internet is away.
pub open spec fn balance_for(has_local_mesh: bool, internet_available: bool) -> u32 {
    if !has_local_mesh {
        10
    } else if !internet_available {
        40
    } else {
        25
    }
}

/// The providers other than this node, in their order.
pub open spec fn remote_of(providers: Seq<Seq<char>>, local: Seq<char>) -> Seq<Seq<char>>
    decreases providers.len(),
{
    if providers.len() == 0 {
        Seq::empty()
    } else {
        let front = remote_of(providers.drop_last(), local);
        if providers.last() == local {
            front
        } else {
            front.push(providers.last())
        }
    }
}

/// A shard that a peer sent on request: who is told of as its contributor, and
/// what is handed to storage.
#[derive(Debug)]
pub struct ShardDelivery {
    pub origin: String,
    pub did: String,
    pub recording_id: String,
    pub envelope: Envelope,
}

fn remote_providers(providers: &Vec<String>, local: &String) -> (remote: Vec<String>)
    ensures
        text::views(remote@) == remote_of(text::views(providers@), local@),
{
    let mut remote: Vec<String> = Vec::new();
    let ghost all = text::views(providers@);
    let mut i: usize = 0;
    assert(all.subrange(0, 0) =~= Seq::<Seq<char>>::empty());
    assert(text::views(remote@) =~= Seq::<Seq<char>>::empty());
    while i < providers.len()
        invariant
            i <= providers@.len(),
            all == text::views(providers@),
            text::views(remote@) == remote_of(all.subrange(0, i as int), local@),
        decreases providers@.len() - i,
    {
        let ghost before = text::views(remote@);
        proof {
            let longer = all.subrange(0, i + 1);
            assert(longer.drop_last() =~= all.subrange(0, i as int));
            assert(longer.last() == providers@[i as int]@);
        }
        if !(providers[i] == *local) {
            remote.push(providers[i].clone());
            assert(text::views(remote@) =~= before.push(providers@[i as int]@));
        }
        i += 1;
    }
    assert(all.subrange(0, i as int) =~= all);
    remote
}

proof fn lemma_remote_are_filtered(providers: Seq<Seq<char>>, local: Seq<char>)
    ensures
        remote_of(providers, local) == providers.filter(|p: Seq<char>| p != local),
    decreases providers.len(),
{
    reveal(Seq::filter);
    if providers.len() > 0 {
        lemma_remote_are_filtered(providers.drop_last(), local);
    }
    assert(remote_of(providers, local) =~= providers.filter(|p: Seq<char>| p != local));
}

/// A node never counts itself among the providers it may ask.
pub proof fn law_self_is_no_provider(providers: Seq<Seq<char>>, local: Seq<char>)
    ensures
        !remote_of(providers, local).contains(local),
    decreases providers.len(),
{
    if providers.len() > 0 {
        law_self_is_no_provider(providers.drop_last(), local);
        let front = remote_of(providers.drop_last(), local);
        if providers.last() != local && front.push(providers.last()).contains(local) {
            let i = front.push(providers.last()).index_of(local);
            assert(front[i] == local);
        }
    }
}

impl MeshSentinel {
    /// The bounds on a message can be computed.
    pub open spec fn wf(&self) -> bool {
        &&& self.session.wf()
        &&& self.max_chunk_size_bytes * PRESSURE_FACTOR <= usize::MAX
    }

    /// `plan` is the plan of a node.
    pub open spec fn is_plan(
        config: NodeConfig,
        pipeline_capacity: usize,
        vault_key: [u8; 32],
        plan: SentinelPlan,
    ) -> bool {
        &&& plan.video_mailbox == config.storage.max_video_buffer
        &&& plan.audio_mailbox == config.storage.max_audio_buffer
        &&& plan.proximity_mailbox == pipeline_capacity
        &&& plan.storage_mailbox == pipeline_capacity
        &&& plan.ingestion_mailbox == pipeline_capacity
        &&& plan.ingress_capacity == pipeline_capacity
        &&& plan.egress_mailbox == 100
        &&& plan.retrieval_mailbox == 100
        &&& plan.trust_mailbox == 100
        &&& plan.discovery_mailbox == 100
        &&& plan.commit_mailbox == 100
        &&& plan.sentinel_mailbox == 32
        &&& plan.initial_tolerance_ms == 1000
        &&& plan.outbound_wal_dir@ == paths::path_of(config.storage.vault_path@, "outbound_wal"@)
        &&& plan.network_key == vault_key
    }

    /// Media has the room that the operator gave it, and everything on the way to storage
    /// the capacity of the pipeline, so that no stage of it is narrower than another.
    pub proof fn law_the_pipeline_is_of_one_width(
        config: NodeConfig,
        pipeline_capacity: usize,
        vault_key: [u8; 32],
        plan: SentinelPlan,
    )
        requires
            Self::is_plan(config, pipeline_capacity, vault_key, plan),
        ensures
            plan.video_mailbox == config.storage.max_video_buffer,
            plan.audio_mailbox == config.storage.max_audio_buffer,
            plan.storage_mailbox == pipeline_capacity,
            plan.ingestion_mailbox == plan.storage_mailbox,
            plan.proximity_mailbox == plan.storage_mailbox,
            plan.ingress_capacity == plan.storage_mailbox,
            plan.network_key == vault_key,
            plan.outbound_wal_dir@ == paths::path_of(
                config.storage.vault_path@,
                "outbound_wal"@,
            ),
    {
    }

    /// The plan of a node: how large its mailboxes are, and where things stand.
    pub fn plan(config: &NodeConfig, pipeline_capacity: usize, vault_key: [u8; 32]) -> (plan:
        SentinelPlan)
        ensures
            Self::is_plan(*config, pipeline_capacity, vault_key, plan),
    {
        SentinelPlan {
            video_mailbox: config.storage.max_video_buffer,
            audio_mailbox: config.storage.max_audio_buffer,
            proximity_mailbox: pipeline_capacity,
            storage_mailbox: pipeline_capacity,
            ingestion_mailbox: pipeline_capacity,
            ingress_capacity: pipeline_capacity,
            egress_mailbox: PIPELINE_MAILBOX,
            retrieval_mailbox: PIPELINE_MAILBOX,
            trust_mailbox: PIPELINE_MAILBOX,
            discovery_mailbox: PIPELINE_MAILBOX,
            commit_mailbox: PIPELINE_MAILBOX,
            sentinel_mailbox: SENTINEL_MAILBOX,
            initial_tolerance_ms: INITIAL_TOLERANCE_MS,
            outbound_wal_dir: paths::join_path(
                config.storage.vault_path.as_str(),
                "outbound_wal",
            ),
            network_key: vault_key,
        }
    }

    /// A sentinel that records nothing, plays nothing and has nobody to tell of
    /// providers.
    pub fn new(
        config: &NodeConfig,
        local_did: String,
        local_address: String,
        has_local_mesh: bool,
    ) -> (sentinel: Self)
        requires
            config.network.max_chunk_size_bytes * PRESSURE_FACTOR <= usize::MAX,
        ensures
            sentinel.wf(),
            sentinel.max_chunk_size_bytes == config.network.max_chunk_size_bytes,
            sentinel.control_topic@ == config.network.control_topic@,
            sentinel.revocation_topic@ == config.network.revocation_topic@,
            sentinel.local_did == local_did,
            sentinel.local_address == local_address,
            sentinel.has_local_mesh == has_local_mesh,
            sentinel.session.active_recording_id is None,
            sentinel.session.proximity_witnesses@.len() == 0,
            sentinel.session.content_key is None,
            !sentinel.playback_slot,
            sentinel.providers == ProvidersTenant::Nobody,
    {
        MeshSentinel {
            max_chunk_size_bytes: config.network.max_chunk_size_bytes,
            control_topic: config.network.control_topic.clone(),
            revocation_topic: config.network.revocation_topic.clone(),
            local_did,
            local_address,
            has_local_mesh,
            session: RecordingSessionState::new(),
            playback_slot: false,
            providers: ProvidersTenant::Nobody,
        }
    }

    pub fn compute_transport_balance(&self, internet_available: bool) -> (percent: u32)
        ensures
            percent == balance_for(self.has_local_mesh, internet_available),
    {
        if !self.has_local_mesh {
            10
        } else if !internet_available {
            40
        } else {
            25
        }
    }

    /// Where a message goes: too long ones nowhere, heartbeats and revocations to
    /// their actors, and everything else, while there is bandwidth, to ingestion.
    pub open spec fn route(
        &self,
        origin: String,
        topic: String,
        data: Vec<u8>,
        saturated: bool,
    ) -> SentinelAction {
        if data@.len() > self.max_chunk_size_bytes * OVERSIZE_FACTOR {
            SentinelAction::Ignore
        } else if topic@ == self.control_topic@ {
            SentinelAction::Heartbeat { origin, data }
        } else if topic@ == self.revocation_topic@ {
            SentinelAction::RevocationToken { origin, data }
        } else if saturated {
            SentinelAction::Saturated { origin, size: data@.len() as usize }
        } else {
            SentinelAction::Ingest { origin, topic, data }
        }
    }

    fn handle_data_received(&self, origin: String, topic: String, data: Vec<u8>, saturated: bool) -> (
        action: SentinelAction)
        requires
            self.wf(),
        ensures
            action == self.route(origin, topic, data, saturated),
    {
        if data.len() > self.max_chunk_size_bytes * OVERSIZE_FACTOR {
            SentinelAction::Ignore
        } else if topic == self.control_topic {
            SentinelAction::Heartbeat { origin, data }
        } else if topic == self.revocation_topic {
            SentinelAction::RevocationToken { origin, data }
        } else if saturated {
            SentinelAction::Saturated { origin, size: data.len() }
        } else {
            SentinelAction::Ingest { origin, topic, data }
        }
    }

    pub open spec fn is_full_pressure(&self, bytes: usize) -> bool {
        bytes == self.max_chunk_size_bytes * PRESSURE_FACTOR
    }

    /// A chunk that finds no room weighs as much as two hundred of the largest chunks.
    pub proof fn law_full_pressure_is_two_hundred_chunks(&self, bytes: usize)
        requires
            self.is_full_pressure(bytes),
        ensures
            bytes == 200 * self.max_chunk_size_bytes,
    {
    }

    /// The pressure that is recorded for a chunk that ingestion had no room for.
    pub fn ingestion_full_pressure(&self) -> (bytes: usize)
        requires
            self.wf(),
        ensures
            self.is_full_pressure(bytes),
    {
        self.max_chunk_size_bytes * PRESSURE_FACTOR
    }

    /// What each event leads to.
    pub open spec fn reacts(
        &self,
        event: NetworkEvent,
        saturated: bool,
        internet_available: bool,
        action: SentinelAction,
        stop: bool,
    ) -> bool {
        &&& stop == (event is Shutdown)
        &&& match event {
            NetworkEvent::DataReceived { origin, topic, data } => action == self.route(
                origin,
                topic,
                data,
                saturated,
            ),
            NetworkEvent::PeerDiscovered { peer, transport } => action
                == (SentinelAction::TryAdmit {
                peer,
                transport,
                balance_percent: balance_for(self.has_local_mesh, internet_available),
            }),
            NetworkEvent::RecordingRequested { origin, request, channel_id } => action
                == (SentinelAction::Retrieve { origin, request, channel_id }),
            NetworkEvent::ProvidersDiscovered { recording_id, providers } => {
                let others = remote_of(text::views(providers@), self.local_address@);
                if others.len() == 0 {
                    action is Ignore
                } else {
                    action matches SentinelAction::Providers { recording_id: id, remote } && id
                        == recording_id && text::views(remote@) == others
                }
            },
            NetworkEvent::ArchiveRequested { channel_id: _ } => action is Ignore,
            NetworkEvent::ArchiveReceiptReceived { receipt } => action
                == (SentinelAction::Receipt { receipt }),
            NetworkEvent::ShardResponseReceived { origin, envelopes } => action
                == (SentinelAction::StoreShards { origin, envelopes }),
            NetworkEvent::PeerDisconnected { peer } => action == (SentinelAction::PeerGone {
                peer,
            }),
            NetworkEvent::BleAuthChallengeReceived => action is Ignore,
            NetworkEvent::BleAuthResponseReceived => action is Ignore,
            NetworkEvent::Shutdown => action is Salvage,
        }
    }

    /// Decides on an event, and whether it is the last one.
    pub fn handle_network_event(
        &self,
        event: NetworkEvent,
        saturated: bool,
        internet_available: bool,
    ) -> (decided: (SentinelAction, bool))
        requires
            self.wf(),
        ensures
            self.reacts(event, saturated, internet_available, decided.0, decided.1),
    {
        match event {
            NetworkEvent::DataReceived { origin, topic, data } => {
                (self.handle_data_received(origin, topic, data, saturated), false)
            },
            NetworkEvent::PeerDiscovered { peer, transport } => {
                let balance_percent: u32 = self.compute_transport_balance(internet_available);
                (SentinelAction::TryAdmit { peer, transport, balance_percent }, false)
            },
            NetworkEvent::RecordingRequested { origin, request, channel_id } => {
                (SentinelAction::Retrieve { origin, request, channel_id }, false)
            },
            NetworkEvent::ProvidersDiscovered { recording_id, providers } => {
                let remote = remote_providers(&providers, &self.local_address);
                if remote.len() == 0 {
                    assert(text::views(remote@).len() == 0);
                    (SentinelAction::Ignore, false)
                } else {
                    assert(text::views(remote@).len() > 0);
                    (SentinelAction::Providers { recording_id, remote }, false)
                }
            },
            NetworkEvent::ArchiveRequested { channel_id: _ } => (SentinelAction::Ignore, false),
            NetworkEvent::ArchiveReceiptReceived { receipt } => {
                (SentinelAction::Receipt { receipt }, false)
            },
            NetworkEvent::ShardResponseReceived { origin, envelopes } => {
                (SentinelAction::StoreShards { origin, envelopes }, false)
            },
            NetworkEvent::PeerDisconnected { peer } => (SentinelAction::PeerGone { peer }, false),
            NetworkEvent::BleAuthChallengeReceived => (SentinelAction::Ignore, false),
            NetworkEvent::BleAuthResponseReceived => (SentinelAction::Ignore, false),
            NetworkEvent::Shutdown => (SentinelAction::Salvage, true),
        }
    }

    /// Every provider but the node itself is handed on, in its order, for the
    /// recording that was asked for; the event is ignored only where there is
    /// nobody else.
    pub proof fn law_remote_providers_are_handed_on(
        &self,
        recording_id: String,
        providers: Vec<String>,
        saturated: bool,
        internet_available: bool,
        action: SentinelAction,
        stop: bool,
    )
        requires
            self.reacts(
                NetworkEvent::ProvidersDiscovered { recording_id, providers },
                saturated,
                internet_available,
                action,
                stop,
            ),
        ensures
            !stop,
            ({
                let local = self.local_address@;
                action matches SentinelAction::Providers { recording_id: id, remote } ==> id@
                    == recording_id@ && text::views(remote@) == text::views(providers@).filter(
                    |p: Seq<char>| p != local,
                )
            }),
            forall|i: int|
                0 <= i < providers@.len() && (#[trigger] providers@[i])@ != self.local_address@
                    ==> (action matches SentinelAction::Providers { remote, .. } && text::views(
                    remote@,
                ).contains(providers@[i]@)),
            (forall|i: int|
                0 <= i < providers@.len() ==> (#[trigger] providers@[i])@ == self.local_address@)
                ==> action is Ignore,
    {
        let all = text::views(providers@);
        let local = self.local_address@;
        let other = |p: Seq<char>| p != local;
        lemma_remote_are_filtered(all, local);
        assert forall|i: int| 0 <= i < providers@.len() && (#[trigger] providers@[i])@
            != self.local_address@ implies (action matches SentinelAction::Providers { remote, .. }
            && text::views(remote@).contains(providers@[i]@)) by {
            assert(all[i] == providers@[i]@);
            all.lemma_filter_contains(other, i);
            assert(all.filter(other).contains(all[i]));
            assert(all.filter(other).len() > 0);
        }
        if all.filter(other).len() > 0 {
            let first = all.filter(other)[0];
            assert(all.filter(other).contains(first));
            all.lemma_filter_contains_rev(other, first);
            all.lemma_filter_pred(other, 0);
            let i = all.index_of(first);
            assert(providers@[i]@ == first);
        }
    }

    /// A message of a size that may be goes to the actor of its topic as it came:
    /// heartbeats and revocations always, evidence while there is bandwidth. What
    /// is dropped for want of bandwidth is counted in full.
    pub proof fn law_messages_reach_their_actors(
        &self,
        origin: String,
        topic: String,
        data: Vec<u8>,
        saturated: bool,
        internet_available: bool,
        action: SentinelAction,
        stop: bool,
    )
        requires
            self.reacts(
                NetworkEvent::DataReceived { origin, topic, data },
                saturated,
                internet_available,
                action,
                stop,
            ),
        ensures
            !stop,
            action is Ignore <==> data@.len() > 2 * self.max_chunk_size_bytes,
            data@.len() <= 2 * self.max_chunk_size_bytes ==> {
                &&& topic@ == self.control_topic@ ==> action == (SentinelAction::Heartbeat {
                    origin,
                    data,
                })
                &&& topic@ != self.control_topic@ && topic@ == self.revocation_topic@ ==> action
                    == (SentinelAction::RevocationToken { origin, data })
                &&& topic@ != self.control_topic@ && topic@ != self.revocation_topic@
                    && !saturated ==> action == (SentinelAction::Ingest { origin, topic, data })
                &&& topic@ != self.control_topic@ && topic@ != self.revocation_topic@ && saturated
                    ==> (action matches SentinelAction::Saturated { origin: from, size } && from
                    == origin && size == data@.len())
            },
    {
        assert(data@.len() == data.len());
    }

    /// Peers, requests, receipts and shards are handed on as they came, and only a
    /// shutdown ends the loop, with what egress holds saved.
    pub proof fn law_events_are_handed_on(
        &self,
        event: NetworkEvent,
        saturated: bool,
        internet_available: bool,
        action: SentinelAction,
        stop: bool,
    )
        requires
            self.reacts(event, saturated, internet_available, action, stop),
        ensures
            stop <==> event is Shutdown,
            stop <==> action is Salvage,
            event matches NetworkEvent::PeerDiscovered { peer, transport } ==> (
            action matches SentinelAction::TryAdmit { peer: p, transport: t, .. } && p == peer && t
                == transport),
            event matches NetworkEvent::RecordingRequested { origin, request, channel_id }
                ==> action == (SentinelAction::Retrieve { origin, request, channel_id }),
            event matches NetworkEvent::ArchiveReceiptReceived { receipt } ==> action
                == (SentinelAction::Receipt { receipt }),
            event matches NetworkEvent::ShardResponseReceived { origin, envelopes } ==> action
                == (SentinelAction::StoreShards { origin, envelopes }),
            event matches NetworkEvent::PeerDisconnected { peer } ==> action
                == (SentinelAction::PeerGone { peer }),
    {
    }

    /// Local radio matters most while the internet is away, less while it is there,
    /// and least to a node that has none.
    pub proof fn law_local_peers_count_most_offline(
        with_radio: Self,
        without: Self,
        peer: String,
        transport: TransportClass,
        online: SentinelAction,
        offline: SentinelAction,
        radioless: SentinelAction,
        internet_available: bool,
    )
        requires
            with_radio.has_local_mesh,
            !without.has_local_mesh,
            with_radio.reacts(
                NetworkEvent::PeerDiscovered { peer, transport },
                false,
                true,
                online,
                false,
            ),
            with_radio.reacts(
                NetworkEvent::PeerDiscovered { peer, transport },
                false,
                false,
                offline,
                false,
            ),
            without.reacts(
                NetworkEvent::PeerDiscovered { peer, transport },
                false,
                internet_available,
                radioless,
                false,
            ),
        ensures
            offline->balance_percent == 40,
            online->balance_percent == 25,
            radioless->balance_percent == 10,
    {
    }

    /// No message that is too long reaches an actor, whatever its topic.
    pub proof fn law_oversized_messages_go_nowhere(
        &self,
        origin: String,
        topic: String,
        data: Vec<u8>,
        saturated: bool,
    )
        requires
            data@.len() > 2 * self.max_chunk_size_bytes,
        ensures
            self.route(origin, topic, data, saturated) is Ignore,
    {
    }

    /// Revocations get through however busy the node is.
    pub proof fn law_revocations_pass_a_saturated_node(
        &self,
        origin: String,
        topic: String,
        data: Vec<u8>,
        saturated: bool,
    )
        requires
            data@.len() <= 2 * self.max_chunk_size_bytes,
            topic@ == self.revocation_topic@,
            self.control_topic@ != self.revocation_topic@,
        ensures
            self.route(origin, topic, data, saturated) == (SentinelAction::RevocationToken {
                origin,
                data,
            }),
    {
    }

    /// What an admission leads to. A peer that was met over local radio while a
    /// recording ran is a witness of it.
    pub open spec fn admission_effect(
        before: Self,
        after: Self,
        peer: Seq<char>,
        transport: TransportClass,
        outcome: Option<AdmitOutcome>,
        now: u64,
        next: AfterAdmission,
    ) -> bool {
        let admitted = outcome is Some && outcome->0.admitted;
        let witnessed = admitted && transport == TransportClass::LocalMesh
            && before.session.active_recording_id is Some;
        &&& next.reconnected == admitted
        &&& next.replay_revocations == (admitted && outcome->0.was_first_seen)
        &&& if witnessed {
            &&& after == (MeshSentinel {
                session: RecordingSessionState {
                    proximity_witnesses: after.session.proximity_witnesses,
                    ..before.session
                },
                ..before
            })
            &&& after.session.proximity_witnesses@.len()
                == before.session.proximity_witnesses@.len() + 1
            &&& after.session.proximity_witnesses@.drop_last()
                == before.session.proximity_witnesses@
            &&& {
                let w = after.session.proximity_witnesses@.last();
                &&& w.local_did@ == before.local_did@
                &&& w.remote_did@ == peer
                &&& w.recording_id@ == before.session.active_recording_id->0@
                &&& w.observed_at == now
                &&& w.transport == transport
            }
        } else {
            after == before
        }
    }

    /// A peer that was let in is known again to the canary, and is told of all
    /// revocations the first time. It is a witness exactly where it was met over
    /// local radio while a recording ran: one witness, of that recording, at that
    /// time.
    pub proof fn law_witnesses_are_of_the_recording(
        before: Self,
        after: Self,
        peer: Seq<char>,
        transport: TransportClass,
        outcome: Option<AdmitOutcome>,
        now: u64,
        next: AfterAdmission,
    )
        requires
            Self::admission_effect(before, after, peer, transport, outcome, now, next),
        ensures
            next.reconnected <==> outcome is Some && outcome->0.admitted,
            next.replay_revocations <==> outcome is Some && outcome->0.admitted
                && outcome->0.was_first_seen,
            ({
                let held = before.session.proximity_witnesses@;
                let now_held = after.session.proximity_witnesses@;
                if outcome is Some && outcome->0.admitted && transport == TransportClass::LocalMesh
                    && before.session.active_recording_id is Some {
                    &&& now_held.len() == held.len() + 1
                    &&& forall|i: int| 0 <= i < held.len() ==> #[trigger] now_held[i] == held[i]
                    &&& now_held.last().remote_did@ == peer
                    &&& now_held.last().local_did@ == before.local_did@
                    &&& now_held.last().recording_id@ == before.session.active_recording_id->0@
                    &&& now_held.last().observed_at == now
                } else {
                    now_held == held
                }
            }),
            after.session.active_recording_id == before.session.active_recording_id,
            after.session.content_key == before.session.content_key,
    {
        let held = before.session.proximity_witnesses@;
        let now_held = after.session.proximity_witnesses@;
        assert forall|i: int| 0 <= i < held.len() implies #[trigger] now_held[i] == held[i] by {
            if now_held != held {
                assert(now_held.drop_last()[i] == now_held[i]);
            }
        }
    }

    /// Settles an admission; none where the topology side is gone.
    pub fn on_admission(
        &mut self,
        peer: &String,
        transport: TransportClass,
        outcome: Option<AdmitOutcome>,
        now: u64,
    ) -> (next: AfterAdmission)
        requires
            old(self).wf(),
        ensures
            final(self).wf(),
            Self::admission_effect(*old(self), *final(self), peer@, transport, outcome, now, next),
    {
        match outcome {
            Some(o) => {
                if !o.admitted {
                    return AfterAdmission { reconnected: false, replay_revocations: false };
                }
                let local = match transport {
                    TransportClass::LocalMesh => true,
                    _ => false,
                };
                if local {
                    let current = match self.session.recording_id() {
                        Some(id) => Some(id.clone()),
                        None => None,
                    };
                    match current {
                        Some(recording_id) => {
                            let local_did = self.local_did.clone();
                            self.session.push_witness(
                                ProximityWitness {
                                    local_did,
                                    remote_did: peer.clone(),
                                    recording_id,
                                    observed_at: now,
                                    transport,
                                },
                            );
                            assert(self.session.proximity_witnesses@.drop_last() =~= old(
                                self,
                            ).session.proximity_witnesses@);
                        },
                        None => {},
                    }
                }
                AfterAdmission { reconnected: true, replay_revocations: o.was_first_seen }
            },
            None => AfterAdmission { reconnected: false, replay_revocations: false },
        }
    }

    /// What follows a commit of storage: the recording is staged for custody, and
    /// then announced.
    pub fn handle_commit_notification(recording_id: &String) -> (staged: (String, EgressCommand))
        ensures
            staged.0@ == recording_id@,
            staged.1 == EgressCommand::AnnounceRecording(*recording_id),
    {
        (recording_id.clone(), EgressCommand::AnnounceRecording(recording_id.clone()))
    }

    /// `deliveries` are the shards of a response, one for one.
    pub open spec fn delivered(
        origin: Seq<char>,
        envelopes: Seq<Envelope>,
        deliveries: Seq<ShardDelivery>,
    ) -> bool {
        &&& deliveries.len() == envelopes.len()
        &&& forall|i: int|
            0 <= i < deliveries.len() ==> {
                &&& (#[trigger] deliveries[i]).envelope == envelopes[i]
                &&& deliveries[i].origin@ == origin
                &&& deliveries[i].did@ == envelopes[i].did@
                &&& deliveries[i].recording_id@ == envelopes[i].recording_id@
            }
    }

    /// Every shard of a response goes to storage, once and in its order, and its
    /// sender is told of with it.
    pub proof fn law_every_shard_of_a_response_is_stored(
        origin: Seq<char>,
        envelopes: Seq<Envelope>,
        deliveries: Seq<ShardDelivery>,
    )
        requires
            Self::delivered(origin, envelopes, deliveries),
        ensures
            deliveries.map_values(|d: ShardDelivery| d.envelope) == envelopes,
            forall|d: ShardDelivery| #[trigger] deliveries.contains(d) ==> d.origin@ == origin,
            deliveries.map_values(|d: ShardDelivery| d.did@) == envelopes.map_values(
                |e: Envelope| e.did@,
            ),
    {
        assert(deliveries.map_values(|d: ShardDelivery| d.envelope) =~= envelopes);
        assert(deliveries.map_values(|d: ShardDelivery| d.did@) =~= envelopes.map_values(
            |e: Envelope| e.did@,
        ));
        assert forall|d: ShardDelivery| #[trigger] deliveries.contains(d) implies d.origin@
            == origin by {
            let i = deliveries.index_of(d);
            assert(deliveries[i] == d);
        }
    }

    /// Takes the shards of a response apart: for each, in order, the canary hears
    /// of its contributor and storage gets its envelope.
    pub fn handle_shard_response(origin: &String, envelopes: Vec<Envelope>) -> (deliveries: Vec<
        ShardDelivery,
    >)
        ensures
            Self::delivered(origin@, envelopes@, deliveries@),
    {
        let ghost all = envelopes@;
        let mut rest = envelopes;
        let mut deliveries: Vec<ShardDelivery> = Vec::new();
        while rest.len() > 0
            invariant
                deliveries@.len() + rest@.len() == all.len(),
                rest@ == all.subrange(deliveries@.len() as int, all.len() as int),
                forall|i: int|
                    0 <= i < deliveries@.len() ==> {
                        &&& (#[trigger] deliveries@[i]).envelope == all[i]
                        &&& deliveries@[i].origin@ == origin@
                        &&& deliveries@[i].did@ == all[i].did@
                        &&& deliveries@[i].recording_id@ == all[i].recording_id@
                    },
            decreases rest@.len(),
        {
            let ghost n = deliveries@.len() as int;
            let envelope = rest.remove(0);
            assert(envelope == all[n]);
            assert(rest@ =~= all.subrange(n + 1, all.len() as int));
            deliveries.push(
                ShardDelivery {
                    origin: origin.clone(),
                    did: envelope.did.clone(),
                    recording_id: envelope.recording_id.clone(),
                    envelope,
                },
            );
        }
        deliveries
    }

    /// What follows a playback that misses a shard.
    pub fn handle_discovery_query(recording_id: String) -> (command: EgressCommand)
        ensures
            command == EgressCommand::FindProviders(recording_id),
    {
        EgressCommand::FindProviders(recording_id)
    }

    /// `salvage` is what is saved at the end.
    pub open spec fn is_salvage(
        reply: SalvageReply,
        salvage: Option<Vec<PendingEgress>>,
    ) -> bool {
        match reply {
            SalvageReply::Unreachable => salvage is None,
            SalvageReply::TimedOut => salvage is None,
            SalvageReply::Abandoned => salvage is Some && salvage->0@.len() == 0,
            SalvageReply::Drained(list) => salvage == Some(list),
        }
    }

    /// Everything that egress held is saved, in its order, wherever egress could give it,
    /// and nothing is saved that it did not give.
    pub proof fn law_everything_pending_is_saved(
        reply: SalvageReply,
        salvage: Option<Vec<PendingEgress>>,
    )
        requires
            Self::is_salvage(reply, salvage),
        ensures
            reply matches SalvageReply::Drained(list) ==> salvage is Some && salvage->0@ == list@,
            !(reply is Drained) && salvage is Some ==> salvage->0@.len() == 0,
            salvage is None <==> reply is Unreachable || reply is TimedOut,
    {
    }

    /// What is saved at the end: what egress gave, nothing where it ended without
    /// an answer, and where it did not answer at all nothing is even written.
    pub fn handle_shutdown(reply: SalvageReply) -> (salvage: Option<Vec<PendingEgress>>)
        ensures
            Self::is_salvage(reply, salvage),
    {
        match reply {
            SalvageReply::Unreachable => None,
            SalvageReply::TimedOut => None,
            SalvageReply::Abandoned => Some(Vec::new()),
            SalvageReply::Drained(list) => Some(list),
        }
    }

    /// Marks a recording as active.
    pub fn start_recording(&mut self, id: String, key: Option<[u8; 32]>)
        requires
            old(self).wf(),
        ensures
            final(self).wf(),
            *final(self) == (MeshSentinel {
                session: RecordingSessionState::started(old(self).session, id, key),
                ..*old(self)
            }),
    {
        self.session.start(id, key);
    }

    /// Ends the recording and hands out its witnesses.
    pub fn stop_recording(&mut self) -> (witnesses: Vec<ProximityWitness>)
        requires
            old(self).wf(),
        ensures
            final(self).wf(),
            *final(self) == (MeshSentinel { session: final(self).session, ..*old(self) }),
            RecordingSessionState::stop_effect(
                old(self).session,
                final(self).session,
                witnesses@,
            ),
    {
        self.session.stop()
    }

    /// What the wish for a playback does.
    pub open spec fn playback_effect(
        before: Self,
        after: Self,
        prior_finished: bool,
        result: Result<(), AlreadyPlaying>,
    ) -> bool {
        &&& result == if before.playback_slot && !prior_finished {
            Err::<(), AlreadyPlaying>(AlreadyPlaying)
        } else {
            Ok(())
        }
        &&& after == if before.playback_slot && !prior_finished {
            before
        } else {
            MeshSentinel {
                playback_slot: true,
                providers: ProvidersTenant::Playback,
                ..before
            }
        }
    }

    /// A playback starts whenever none runs, and while it runs no other does; once it has
    /// finished the next one starts.
    pub proof fn law_playbacks_take_turns(
        s0: Self,
        s1: Self,
        s2: Self,
        s3: Self,
        first_finished: bool,
        first: Result<(), AlreadyPlaying>,
        second: Result<(), AlreadyPlaying>,
        third: Result<(), AlreadyPlaying>,
    )
        requires
            !s0.playback_slot,
            Self::playback_effect(s0, s1, first_finished, first),
            Self::playback_effect(s1, s2, false, second),
            Self::playback_effect(s2, s3, true, third),
        ensures
            first is Ok,
            second is Err,
            third is Ok,
            s1.providers == ProvidersTenant::Playback,
            s2 == s1,
            s3.providers == ProvidersTenant::Playback,
            s1.session == s0.session,
    {
    }

    /// Lets a playback start, unless one is running. Whoever was told of providers
    /// before is told no more.
    pub fn spawn_playback(&mut self, prior_finished: bool) -> (result: Result<(), AlreadyPlaying>)
        requires
            old(self).wf(),
        ensures
            final(self).wf(),
            Self::playback_effect(*old(self), *final(self), prior_finished, result),
    {
        if self.playback_slot && !prior_finished {
            return Err(AlreadyPlaying);
        }
        self.providers = ProvidersTenant::Playback;
        self.playback_slot = true;
        Ok(())
    }

    /// Lets a recovery start. Whoever was told of providers before is told no more.
    pub fn spawn_recovery(&mut self)
        requires
            old(self).wf(),
        ensures
            final(self).wf(),
            *final(self) == (MeshSentinel {
                providers: ProvidersTenant::Recovery,
                ..*old(self)
            }),
    {
        self.providers = ProvidersTenant::Recovery;
    }

    pub open spec fn is_playback_key(
        content_key: Option<[u8; 32]>,
        network_key: [u8; 32],
        key: [u8; 32],
    ) -> bool {
        key == match content_key {
            Some(k) => k,
            None => network_key,
        }
    }

    /// A recording is played with its own key wherever it has one, and with the network's
    /// only where it has none.
    pub proof fn law_recordings_are_played_with_their_key(
        content_key: Option<[u8; 32]>,
        network_key: [u8; 32],
        key: [u8; 32],
    )
        requires
            Self::is_playback_key(content_key, network_key, key),
        ensures
            content_key is Some ==> key == content_key->0,
            content_key is None ==> key == network_key,
    {
    }

    /// The key that a playback decrypts with: the recording's own, where there is
    /// one.
    pub fn playback_key(content_key: Option<[u8; 32]>, network_key: [u8; 32]) -> (key: [u8; 32])
        ensures
            Self::is_playback_key(content_key, network_key, key),
    {
        match content_key {
            Some(k) => k,
            None => network_key,
        }
    }

    /// What each command does and how it is answered.
    pub open spec fn command_effect(
        before: Self,
        after: Self,
        command: SentinelCommand,
        reply: SentinelReply,
    ) -> bool {
        match command {
            SentinelCommand::SetRecordingState { id: Some(id) } => {
                &&& reply is Started
                &&& reply->Started_0@ == id@
                &&& after == (MeshSentinel {
                    session: RecordingSessionState::started(before.session, id, None),
                    ..before
                })
            },
            SentinelCommand::SetRecordingState { id: None } => {
                &&& reply is Stopped
                &&& reply->Stopped_0@ == before.session.proximity_witnesses@
                &&& after == (MeshSentinel { session: after.session, ..before })
                &&& after.session.proximity_witnesses@.len() == 0
                &&& after.session.active_recording_id is None
                &&& after.session.active_recording_key is None
                &&& after.session.content_key is None
            },
            SentinelCommand::SpawnRecovery => reply is Recovery && after == (MeshSentinel {
                providers: ProvidersTenant::Recovery,
                ..before
            }),
            SentinelCommand::SpawnPlayback { prior_finished } => if before.playback_slot
                && !prior_finished {
                reply == SentinelReply::Playback(Err(AlreadyPlaying)) && after == before
            } else {
                reply == SentinelReply::Playback(Ok(())) && after == (MeshSentinel {
                    playback_slot: true,
                    providers: ProvidersTenant::Playback,
                    ..before
                })
            },
        }
    }

    /// Handles a command from outside.
    pub fn handle_sentinel_command(&mut self, command: SentinelCommand) -> (reply: SentinelReply)
        requires
            old(self).wf(),
        ensures
            final(self).wf(),
            Self::command_effect(*old(self), *final(self), command, reply),
    {
        match command {
            SentinelCommand::SetRecordingState { id } => {
                match id {
                    Some(id) => {
                        let told = id.clone();
                        self.start_recording(id, None);
                        SentinelReply::Started(told)
                    },
                    None => SentinelReply::Stopped(self.stop_recording()),
                }
            },
            SentinelCommand::SpawnRecovery => {
                self.spawn_recovery();
                SentinelReply::Recovery
            },
            SentinelCommand::SpawnPlayback { prior_finished } => {
                SentinelReply::Playback(self.spawn_playback(prior_finished))
            },
        }
    }

    /// A recording that was started is the active one until it is stopped; stopping
    /// hands out exactly the witnesses that were gathered, forgets them and every
    /// key of the recording, and leaves playback alone.
    pub proof fn law_recordings_start_and_stop(
        before: Self,
        recording: Self,
        after: Self,
        id: String,
        started: SentinelReply,
        stopped: SentinelReply,
    )
        requires
            Self::command_effect(
                before,
                recording,
                SentinelCommand::SetRecordingState { id: Some(id) },
                started,
            ),
            Self::command_effect(
                recording,
                after,
                SentinelCommand::SetRecordingState { id: None },
                stopped,
            ),
        ensures
            started matches SentinelReply::Started(told) && told@ == id@,
            recording.session.active_recording_id matches Some(active) && active@ == id@,
            recording.session.recording_active,
            recording.session.proximity_witnesses@ == before.session.proximity_witnesses@,
            stopped matches SentinelReply::Stopped(witnesses) && witnesses@
                == recording.session.proximity_witnesses@,
            after.session.active_recording_id is None,
            after.session.content_key is None,
            after.session.proximity_witnesses@.len() == 0,
            after.playback_slot == before.playback_slot,
            after.providers == before.providers,
    {
    }

    /// A playback starts whenever none is running, and then it alone is told of
    /// providers; a recovery takes that place from it.
    pub proof fn law_free_slots_are_given(
        before: Self,
        after: Self,
        prior_finished: bool,
        reply: SentinelReply,
        recovering: Self,
        recovery: SentinelReply,
    )
        requires
            Self::command_effect(
                before,
                after,
                SentinelCommand::SpawnPlayback { prior_finished },
                reply,
            ),
            Self::command_effect(after, recovering, SentinelCommand::SpawnRecovery, recovery),
        ensures
            !before.playback_slot || prior_finished ==> reply == SentinelReply::Playback(Ok(()))
                && after.playback_slot && after.providers == ProvidersTenant::Playback,
            before.playback_slot && !prior_finished ==> reply == SentinelReply::Playback(
                Err(AlreadyPlaying),
            ) && after == before,
            recovery is Recovery,
            recovering.providers == ProvidersTenant::Recovery,
            recovering.session == before.session,
    {
    }

    /// At most one playback runs: as long as it has not ended, another is refused
    /// and changes nothing.
    pub proof fn law_one_playback_at_a_time(
        before: Self,
        middle: Self,
        after: Self,
        first: SentinelReply,
        second: SentinelReply,
        prior_finished: bool,
    )
        requires
            Self::command_effect(
                before,
                middle,
                SentinelCommand::SpawnPlayback { prior_finished },
                first,
            ),
            first == SentinelReply::Playback(Ok(())),
            Self::command_effect(
                middle,
                after,
                SentinelCommand::SpawnPlayback { prior_finished: false },
                second,
            ),
        ensures
            second == SentinelReply::Playback(Err(AlreadyPlaying)),
            after == middle,
    {
    }
}

} // verus!
