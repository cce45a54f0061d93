//! What the node asks of its transport.
use vstd::prelude::*;
use crate::config::{NetworkConfig, NodeConfig};
use crate::paths;
use crate::text;

verus! {

/// Everything that the transport is built from.
#[derive(Debug)]
pub struct TransportPlan {
    /// The file of the persistent routing store.
    pub dht_db_path: String,
    pub listen_addresses: Vec<String>,
    pub bootstrap_peers: Vec<String>,
    pub subscribe_topics: Vec<String>,
    pub protocol_version: String,
    pub max_chunk_size_bytes: usize,
    pub psk: Option<[u8; 32]>,
    pub require_psk: bool,
    pub kademlia_filter_both: bool,
}

/// The topics that the node listens to: one for each kind of message that it
/// handles. Alerts of the canary have no handler, so their topic is not there.
pub open spec fn inbound_topics(network: NetworkConfig) -> Seq<Seq<char>> {
    seq![
        network.video_topic@,
        network.audio_topic@,
        network.control_topic@,
        network.revocation_topic@,
    ]
}

/// Every kind of message that the node handles is listened for.
pub proof fn law_every_inbound_class_is_subscribed(network: NetworkConfig)
    ensures
        inbound_topics(network).contains(network.video_topic@),
        inbound_topics(network).contains(network.audio_topic@),
        inbound_topics(network).contains(network.control_topic@),
        inbound_topics(network).contains(network.revocation_topic@),
{
    assert(inbound_topics(network)[0] == network.video_topic@);
    assert(inbound_topics(network)[1] == network.audio_topic@);
    assert(inbound_topics(network)[2] == network.control_topic@);
    assert(inbound_topics(network)[3] == network.revocation_topic@);
}

pub fn subscribe_topics(network: &NetworkConfig) -> (topics: Vec<String>)
    ensures
        text::views(topics@) == inbound_topics(*network),
{
    let mut topics: Vec<String> = Vec::new();
    topics.push(network.video_topic.clone());
    topics.push(network.audio_topic.clone());
    topics.push(network.control_topic.clone());
    topics.push(network.revocation_topic.clone());
    assert(text::views(topics@) =~= inbound_topics(*network));
    topics
}

/// `plan` is what the transport of a node is built from.
pub open spec fn is_transport(
    config: NodeConfig,
    psk: Option<[u8; 32]>,
    plan: TransportPlan,
) -> bool {
    &&& plan.dht_db_path@ == paths::path_of(config.storage.vault_path@, "dht_store.redb"@)
    &&& text::views(plan.listen_addresses@) == text::views(config.network.listen_addresses@)
    &&& text::views(plan.bootstrap_peers@) == config.network.dialed()
    &&& text::views(plan.subscribe_topics@) == inbound_topics(config.network)
    &&& plan.protocol_version@ == config.network.protocol_version@
    &&& plan.max_chunk_size_bytes == config.network.max_chunk_size_bytes
    &&& plan.psk == psk
    &&& plan.require_psk == config.network.require_psk
    &&& plan.kademlia_filter_both
}

/// The transport dials every bootstrap peer and every custody peer, listens on every
/// address, hears all four topics and no other, and keeps the swarm key and the
/// profile's demands.
pub proof fn law_the_transport_reaches_everybody(
    config: NodeConfig,
    psk: Option<[u8; 32]>,
    plan: TransportPlan,
    i: int,
)
    requires
        is_transport(config, psk, plan),
    ensures
        0 <= i < config.network.bootstrap_peers@.len() ==> text::views(
            plan.bootstrap_peers@,
        ).contains(config.network.bootstrap_peers@[i]@),
        0 <= i < config.network.archival_peers@.len() ==> text::views(
            plan.bootstrap_peers@,
        ).contains(config.network.archival_peers@[i].address@),
        plan.listen_addresses@.len() == config.network.listen_addresses@.len(),
        0 <= i < config.network.listen_addresses@.len() ==> plan.listen_addresses@[i]@
            == config.network.listen_addresses@[i]@,
        plan.subscribe_topics@.len() == 4,
        text::views(plan.subscribe_topics@).contains(config.network.video_topic@),
        text::views(plan.subscribe_topics@).contains(config.network.audio_topic@),
        text::views(plan.subscribe_topics@).contains(config.network.control_topic@),
        text::views(plan.subscribe_topics@).contains(config.network.revocation_topic@),
        plan.psk == psk,
        plan.require_psk == config.network.require_psk,
        plan.max_chunk_size_bytes == config.network.max_chunk_size_bytes,
        plan.protocol_version@ == config.network.protocol_version@,
{
    let net = config.network;
    let boot = text::views(net.bootstrap_peers@);
    let custody = crate::config::addresses(net.archival_peers@);
    if 0 <= i < net.bootstrap_peers@.len() {
        assert(boot[i] == net.bootstrap_peers@[i]@);
        net.law_every_custody_peer_is_dialed(boot[i]);
    }
    if 0 <= i < net.archival_peers@.len() {
        assert(custody[i] == net.archival_peers@[i].address@);
        net.law_every_custody_peer_is_dialed(custody[i]);
    }
    let (a, b) = (text::views(plan.listen_addresses@), text::views(net.listen_addresses@));
    assert(a.len() == plan.listen_addresses@.len() && b.len() == net.listen_addresses@.len());
    if 0 <= i < b.len() {
        assert(a[i] == plan.listen_addresses@[i]@ && b[i] == net.listen_addresses@[i]@);
    }
    assert(text::views(plan.subscribe_topics@).len() == plan.subscribe_topics@.len());
    law_every_inbound_class_is_subscribed(net);
}

/// Derives what the transport is built from.
pub fn setup_transport(config: &NodeConfig, psk: Option<[u8; 32]>) -> (plan: TransportPlan)
    ensures
        is_transport(*config, psk, plan),
{
    TransportPlan {
        dht_db_path: paths::join_path(config.storage.vault_path.as_str(), "dht_store.redb"),
        listen_addresses: text::copy_list(&config.network.listen_addresses),
        bootstrap_peers: config.network.dial_peers(),
        subscribe_topics: subscribe_topics(&config.network),
        protocol_version: config.network.protocol_version.clone(),
        max_chunk_size_bytes: config.network.max_chunk_size_bytes,
        psk,
        require_psk: config.network.require_psk,
        kademlia_filter_both: true,
    }
}

} // verus!
