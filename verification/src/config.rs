//! Configuration as the choice of a deployment profile. The profile pins what
//! all nodes of a mesh must agree on; everything else is local to the node, has
//! a default, and is checked when the configuration is put together.
use vstd::prelude::*;
use vstd::string::*;
use crate::lists;
use crate::paths;
use crate::text;

verus! {

/// What a deployment profile fixes for every node of the mesh.
#[derive(Debug)]
pub struct ProfilePins {
    pub name: String,
    pub protocol_version: String,
    pub max_chunk_size_bytes: usize,
    pub video_topic: String,
    pub audio_topic: String,
    pub control_topic: String,
    pub revocation_topic: String,
    pub require_psk: bool,
    pub target_replica_count: usize,
    pub has_stronghold_role: bool,
}

/// A custody peer that recordings are pushed to: the address that is dialed,
/// and the identity that export grants are sealed to, if there is one.
#[derive(Debug)]
pub struct ArchivalPeer {
    pub address: String,
    pub stronghold_did: Option<String>,
}

/// The network part of the configuration.
#[derive(Debug)]
pub struct NetworkConfig {
    pub protocol_version: String,
    pub max_chunk_size_bytes: usize,
    pub video_topic: String,
    pub audio_topic: String,
    pub control_topic: String,
    pub revocation_topic: String,
    pub require_psk: bool,
    pub target_replica_count: usize,
    pub bootstrap_peers: Vec<String>,
    pub symbol_size: usize,
    pub symbol_bundle_size: u32,
    pub listen_addresses: Vec<String>,
    pub archival_peers: Vec<ArchivalPeer>,
}

/// The part of the network configuration that an operator may set.
#[derive(Debug)]
pub struct NetworkInstance {
    pub bootstrap_peers: Vec<String>,
    pub symbol_size: usize,
    pub symbol_bundle_size: u32,
    pub listen_addresses: Vec<String>,
    pub archival_peers: Vec<ArchivalPeer>,
}

#[derive(Debug)]
pub struct StorageConfig {
    pub vault_path: String,
    pub max_video_buffer: usize,
    pub max_audio_buffer: usize,
    pub max_storage_bytes: u64,
    pub max_foreign_storage_bytes: u64,
    pub max_foreign_per_owner_bytes: u64,
    pub evidence_ttl_secs: u64,
}

#[derive(Debug, Clone, Copy, PartialEq, Eq, Structural)]
pub struct HardwareConfig {
    pub camera_fps: u32,
    pub audio_sample_rate: u32,
    pub audio_channels: u32,
}

/// Everything that an operator may set.
#[derive(Debug)]
pub struct NodeInstance {
    pub storage: StorageConfig,
    pub network: NetworkInstance,
    pub hardware: HardwareConfig,
}

/// The configuration of a node.
#[derive(Debug)]
pub struct NodeConfig {
    pub storage: StorageConfig,
    pub network: NetworkConfig,
    pub hardware: HardwareConfig,
}

/// A configuration that cannot work.
#[derive(Debug)]
pub enum Incoherence {
    UndialableArchivalPeer { address: String },
}

/// A configuration that can work, but looks wrong.
#[derive(Debug, Clone, Copy, PartialEq, Eq, Structural)]
pub enum ConfigWarning {
    /// More replicas are wanted than there are custody peers.
    QuorumOutOfReach,
    /// There are custody peers, but the profile has no role for them.
    NoStrongholdRole,
    /// The storage limits are not nested.
    CapsOutOfOrder,
    /// A full bundle of symbols is larger than a message may be.
    BundleTooLarge,
}

/// Why there is no configuration.
#[derive(Debug)]
pub enum ConfigError {
    NotFound(String),
    ParseError(String),
    PermissionDenied(String),
    Incoherent(Incoherence),
}

/// The lowest frame rate.
pub const MIN_FPS: u32 = 1;

/// The highest sample rate, in hertz.
pub const MAX_SAMPLE_RATE: u32 = 192000;

/// The most audio channels.
pub const MAX_CHANNELS: u32 = 8;

/// The identity of the peer that a dial address names: what follows the last
/// `/p2p/`, up to the next slash. An address without it names nobody.
pub open spec fn peer_id_in(address: Seq<char>) -> Option<Seq<char>> {
    match text::last_place(address, "/p2p/"@) {
        None => None,
        Some(i) => {
            let id = text::part_before(
                address.subrange(i + "/p2p/"@.len(), address.len() as int),
                '/',
            );
            if id.len() == 0 {
                None
            } else {
                Some(id)
            }
        },
    }
}

/// An address names the peer that stands behind its last marker, up to the next slash
/// or the end, however much stands around it. A name that makes another marker with
/// the slashes on both sides of it is none.
pub proof fn law_addresses_name_their_peer(front: Seq<char>, id: Seq<char>, rest: Seq<char>)
    requires
        id.len() > 0,
        !id.contains('/'),
        rest.len() > 0 ==> rest[0] == '/' && id != "p2p"@,
        forall|i: int|
            0 <= i <= rest.len() - 5 ==> #[trigger] rest.subrange(i, i + 5) != "/p2p/"@,
    ensures
        peer_id_in(front + "/p2p/"@ + id + rest) == Some(id),
{
    reveal_strlit("/p2p/");
    reveal_strlit("p2p");
    let marker = "/p2p/"@;
    let address = front + marker + id + rest;
    let at = front.len() as int;
    assert(address.subrange(at, at + 5) =~= marker);
    text::law_the_last_place_is_last(address, marker, at);
    let p = text::last_place(address, marker)->0;
    if p > at {
        assert(address.subrange(p, p + 5)[0] == '/');
        assert(address[p] == '/');
        if p < at + 5 {
            assert(address[p] == marker[p - at]);
            assert(p == at + 4);
            assert(address.subrange(p, p + 5)[1] == 'p');
            assert(address.subrange(p, p + 5)[4] == '/');
            if id.len() >= 4 {
                assert(address[p + 4] == id[3]);
                assert(id.contains(id[3]));
            } else {
                let k = id.len() as int;
                assert(address[p + 1 + k] == rest[0]);
                assert(address.subrange(p, p + 5)[1 + k] == '/');
                assert(1 + k <= 4);
                assert(marker[1 + k] == '/');
                assert(k == 3);
                assert(address.subrange(p, p + 5) == marker);
                assert(id[0] == address.subrange(p, p + 5)[1]);
                assert(id[1] == address.subrange(p, p + 5)[2]);
                assert(id[2] == address.subrange(p, p + 5)[3]);
                assert(id =~= "p2p"@);
            }
        } else if p < at + 5 + id.len() {
            assert(address[p] == id[p - at - 5]);
            assert(id.contains(id[p - at - 5]));
        } else {
            let i = p - at - 5 - id.len();
            assert(rest.subrange(i, i + 5) =~= address.subrange(p, p + 5));
        }
    }
    assert(p == at);
    let tail = address.subrange(at + 5, address.len() as int);
    assert(tail =~= id + rest);
    let part = text::part_before(tail, '/');
    text::law_parts_end_at_the_character(tail, '/');
    if part.len() < id.len() {
        assert(tail[part.len() as int] == id[part.len() as int]);
        assert(id.contains(id[part.len() as int]));
    }
    if part.len() > id.len() {
        assert(part[id.len() as int] == tail[id.len() as int]);
        assert(part.contains(part[id.len() as int]));
    }
    assert(part =~= id) by {
        assert forall|i: int| 0 <= i < id.len() implies part[i] == id[i] by {
            assert(part[i] == tail.subrange(0, part.len() as int)[i]);
        }
    }
}

/// The addresses of the custody peers.
pub open spec fn addresses(peers: Seq<ArchivalPeer>) -> Seq<Seq<char>> {
    peers.map_values(|p: ArchivalPeer| p.address@)
}

/// The two say the same.
pub open spec fn same_did(a: Option<String>, b: Option<String>) -> bool {
    match (a, b) {
        (Some(x), Some(y)) => x@ == y@,
        (None, None) => true,
        _ => false,
    }
}

/// The two lists name the same custody peers, in the same order.
pub open spec fn same_peers(a: Seq<ArchivalPeer>, b: Seq<ArchivalPeer>) -> bool {
    &&& addresses(a) == addresses(b)
    &&& forall|i: int|
        0 <= i < a.len() ==> same_did((#[trigger] a[i]).stronghold_did, b[i].stronghold_did)
}

impl ArchivalPeer {
    /// The peer that a directed push goes to.
    pub fn peer_id(&self) -> (id: Option<String>)
        ensures
            match id {
                Some(s) => peer_id_in(self.address@) == Some(s@),
                None => peer_id_in(self.address@) is None,
            },
    {
        let marker = "/p2p/";
        let total: usize = self.address.as_str().unicode_len();
        match text::find_last(self.address.as_str(), marker) {
            None => None,
            Some(i) => {
                assert(i + marker@.len() <= total);
                let from: usize = i + marker.unicode_len();
                let id = text::take_until(self.address.as_str(), from, '/');
                if id.as_str().unicode_len() == 0 {
                    None
                } else {
                    Some(id)
                }
            },
        }
    }
}

fn copy_peers(peers: &Vec<ArchivalPeer>) -> (copy: Vec<ArchivalPeer>)
    ensures
        same_peers(copy@, peers@),
{
    let mut copy: Vec<ArchivalPeer> = Vec::new();
    let mut i: usize = 0;
    while i < peers.len()
        invariant
            i <= peers@.len(),
            copy@.len() == i,
            forall|j: int|
                0 <= j < i ==> (#[trigger] copy@[j]).address@ == peers@[j].address@ && same_did(
                    copy@[j].stronghold_did,
                    peers@[j].stronghold_did,
                ),
        decreases peers@.len() - i,
    {
        let stronghold_did = match &peers[i].stronghold_did {
            Some(did) => Some(did.clone()),
            None => None,
        };
        copy.push(ArchivalPeer { address: peers[i].address.clone(), stronghold_did });
        i += 1;
    }
    assert(addresses(copy@) =~= addresses(peers@));
    copy
}

/// The default addresses to listen on.
pub fn default_listen_addresses() -> (list: Vec<String>)
    ensures
        text::views(list@) =~= seq!["/ip4/0.0.0.0/udp/0/quic-v1"@, "/ip4/0.0.0.0/tcp/0"@],
{
    let mut list: Vec<String> = Vec::new();
    list.push("/ip4/0.0.0.0/udp/0/quic-v1".to_owned());
    list.push("/ip4/0.0.0.0/tcp/0".to_owned());
    list
}

impl NetworkInstance {
    /// The defaults, for a symbol size and a bundle size.
    pub fn with_symbols(symbol_size: usize, symbol_bundle_size: u32) -> (instance: Self)
        ensures
            instance.bootstrap_peers@.len() == 0,
            instance.symbol_size == symbol_size,
            instance.symbol_bundle_size == symbol_bundle_size,
            text::views(instance.listen_addresses@) =~= seq![
                "/ip4/0.0.0.0/udp/0/quic-v1"@,
                "/ip4/0.0.0.0/tcp/0"@,
            ],
            instance.archival_peers@.len() == 0,
    {
        NetworkInstance {
            bootstrap_peers: Vec::new(),
            symbol_size,
            symbol_bundle_size,
            listen_addresses: default_listen_addresses(),
            archival_peers: Vec::new(),
        }
    }
}

impl NetworkConfig {
    /// The addresses to dial at the start: those of the bootstrap peers, then
    /// those of the custody peers, each where it first occurs.
    pub open spec fn dialed(&self) -> Seq<Seq<char>> {
        lists::merged(
            Seq::empty(),
            text::views(self.bootstrap_peers@) + addresses(self.archival_peers@),
        )
    }

    /// The peers that are dialed at the start: the bootstrap peers in their
    /// order, then the custody peers, without any address twice.
    pub fn dial_peers(&self) -> (peers: Vec<String>)
        ensures
            text::views(peers@) == self.dialed(),
    {
        let ghost base = text::views(self.bootstrap_peers@);
        let ghost all = addresses(self.archival_peers@);
        let ghost list = base + all;
        let mut peers: Vec<String> = Vec::new();
        assert(list.subrange(0, 0) =~= Seq::<Seq<char>>::empty());
        assert(text::views(peers@) =~= Seq::<Seq<char>>::empty());
        let mut i: usize = 0;
        while i < self.bootstrap_peers.len()
            invariant
                i <= self.bootstrap_peers@.len(),
                base == text::views(self.bootstrap_peers@),
                list == base + all,
                text::views(peers@) == lists::merged(
                    Seq::<Seq<char>>::empty(),
                    list.subrange(0, i as int),
                ),
            decreases self.bootstrap_peers@.len() - i,
        {
            proof {
                let longer = list.subrange(0, i + 1);
                assert(longer.drop_last() =~= list.subrange(0, i as int));
                assert(longer.last() == self.bootstrap_peers@[i as int]@);
            }
            text::add_new(&mut peers, &self.bootstrap_peers[i]);
            i += 1;
        }
        let mut k: usize = 0;
        while k < self.archival_peers.len()
            invariant
                k <= self.archival_peers@.len(),
                i == base.len(),
                all == addresses(self.archival_peers@),
                list == base + all,
                text::views(peers@) == lists::merged(
                    Seq::<Seq<char>>::empty(),
                    list.subrange(0, i + k),
                ),
            decreases self.archival_peers@.len() - k,
        {
            proof {
                let longer = list.subrange(0, i + k + 1);
                assert(longer.drop_last() =~= list.subrange(0, i + k));
                assert(longer.last() == self.archival_peers@[k as int].address@);
            }
            text::add_new(&mut peers, &self.archival_peers[k].address);
            k += 1;
        }
        assert(list.subrange(0, i + k) =~= list);
        peers
    }

    /// Every bootstrap peer and every custody peer is dialed, nobody else, and
    /// nobody twice. The bootstrap peers come first and keep their order.
    pub proof fn law_every_custody_peer_is_dialed(&self, address: Seq<char>)
        ensures
            self.dialed().contains(address) <==> text::views(self.bootstrap_peers@).contains(
                address,
            ) || addresses(self.archival_peers@).contains(address),
            self.dialed().no_duplicates(),
            lists::merged(Seq::empty(), text::views(self.bootstrap_peers@)).is_prefix_of(
                self.dialed(),
            ),
            text::views(self.bootstrap_peers@).no_duplicates() ==> text::views(
                self.bootstrap_peers@,
            ).is_prefix_of(self.dialed()),
    {
        let base = text::views(self.bootstrap_peers@);
        let all = addresses(self.archival_peers@);
        let none = Seq::<Seq<char>>::empty();
        lists::lemma_merged_parts(none, base, all);
        lists::lemma_merged(none, base, address);
        lists::lemma_merged(lists::merged(none, base), all, address);
        lists::lemma_merged_repeats_nothing(none, base + all);
        if base.no_duplicates() {
            lists::lemma_merged_into_empty(base);
        }
    }

    /// `self` is the projection of the profile over the instance data.
    pub open spec fn projects(&self, pins: ProfilePins, instance: NetworkInstance) -> bool {
        &&& self.protocol_version@ == pins.protocol_version@
        &&& self.max_chunk_size_bytes == pins.max_chunk_size_bytes
        &&& self.video_topic@ == pins.video_topic@
        &&& self.audio_topic@ == pins.audio_topic@
        &&& self.control_topic@ == pins.control_topic@
        &&& self.revocation_topic@ == pins.revocation_topic@
        &&& self.require_psk == pins.require_psk
        &&& self.target_replica_count == pins.target_replica_count
        &&& text::views(self.bootstrap_peers@) == text::views(instance.bootstrap_peers@)
        &&& self.symbol_size == instance.symbol_size
        &&& self.symbol_bundle_size == instance.symbol_bundle_size
        &&& text::views(self.listen_addresses@) == text::views(instance.listen_addresses@)
        &&& same_peers(self.archival_peers@, instance.archival_peers@)
    }

    /// Nodes of one profile agree on everything that is pinned, whatever their
    /// operators set.
    pub proof fn law_one_profile_one_mesh(
        a: Self,
        b: Self,
        pins: ProfilePins,
        instance_a: NetworkInstance,
        instance_b: NetworkInstance,
    )
        requires
            a.projects(pins, instance_a),
            b.projects(pins, instance_b),
        ensures
            a.protocol_version@ == b.protocol_version@,
            a.max_chunk_size_bytes == b.max_chunk_size_bytes,
            a.video_topic@ == b.video_topic@,
            a.audio_topic@ == b.audio_topic@,
            a.control_topic@ == b.control_topic@,
            a.revocation_topic@ == b.revocation_topic@,
            a.require_psk == b.require_psk,
            a.target_replica_count == b.target_replica_count,
    {
    }

    /// What an operator sets is what the node goes by, as far as the profile leaves it
    /// open: every address, every custody peer with its identity, and both sizes.
    pub proof fn law_operators_set_the_rest(
        self,
        pins: ProfilePins,
        instance: NetworkInstance,
        i: int,
    )
        requires
            self.projects(pins, instance),
        ensures
            self.symbol_size == instance.symbol_size,
            self.symbol_bundle_size == instance.symbol_bundle_size,
            self.bootstrap_peers@.len() == instance.bootstrap_peers@.len(),
            0 <= i < instance.bootstrap_peers@.len() ==> self.bootstrap_peers@[i]@
                == instance.bootstrap_peers@[i]@,
            self.listen_addresses@.len() == instance.listen_addresses@.len(),
            0 <= i < instance.listen_addresses@.len() ==> self.listen_addresses@[i]@
                == instance.listen_addresses@[i]@,
            self.archival_peers@.len() == instance.archival_peers@.len(),
            0 <= i < instance.archival_peers@.len() ==> {
                let given = instance.archival_peers@[i];
                let kept = self.archival_peers@[i];
                &&& kept.address@ == given.address@
                &&& kept.stronghold_did is Some <==> given.stronghold_did is Some
                &&& given.stronghold_did is Some ==> kept.stronghold_did->0@
                    == given.stronghold_did->0@
            },
            self.protocol_version@ == pins.protocol_version@,
            self.max_chunk_size_bytes == pins.max_chunk_size_bytes,
            self.video_topic@ == pins.video_topic@,
            self.audio_topic@ == pins.audio_topic@,
            self.control_topic@ == pins.control_topic@,
            self.revocation_topic@ == pins.revocation_topic@,
            self.require_psk == pins.require_psk,
            self.target_replica_count == pins.target_replica_count,
    {
        let (a, b) = (text::views(self.bootstrap_peers@), text::views(instance.bootstrap_peers@));
        let (c, d) = (text::views(self.listen_addresses@), text::views(instance.listen_addresses@));
        assert(a.len() == self.bootstrap_peers@.len() && b.len() == instance.bootstrap_peers@.len());
        assert(c.len() == self.listen_addresses@.len() && d.len()
            == instance.listen_addresses@.len());
        lemma_same_first_undialable(self.archival_peers@, instance.archival_peers@);
        if 0 <= i < a.len() {
            assert(a[i] == self.bootstrap_peers@[i]@ && b[i] == instance.bootstrap_peers@[i]@);
        }
        if 0 <= i < c.len() {
            assert(c[i] == self.listen_addresses@[i]@ && d[i] == instance.listen_addresses@[i]@);
        }
        if 0 <= i < instance.archival_peers@.len() {
            assert(same_did(
                self.archival_peers@[i].stronghold_did,
                instance.archival_peers@[i].stronghold_did,
            ));
        }
    }

    /// Puts the pinned and the instance data together.
    pub fn from_profile(pins: &ProfilePins, instance: &NetworkInstance) -> (config: Self)
        ensures
            config.projects(*pins, *instance),
    {
        NetworkConfig {
            protocol_version: pins.protocol_version.clone(),
            max_chunk_size_bytes: pins.max_chunk_size_bytes,
            video_topic: pins.video_topic.clone(),
            audio_topic: pins.audio_topic.clone(),
            control_topic: pins.control_topic.clone(),
            revocation_topic: pins.revocation_topic.clone(),
            require_psk: pins.require_psk,
            target_replica_count: pins.target_replica_count,
            bootstrap_peers: text::copy_list(&instance.bootstrap_peers),
            symbol_size: instance.symbol_size,
            symbol_bundle_size: instance.symbol_bundle_size,
            listen_addresses: text::copy_list(&instance.listen_addresses),
            archival_peers: copy_peers(&instance.archival_peers),
        }
    }
}

impl StorageConfig {
    pub open spec fn same(&self, other: &Self) -> bool {
        &&& self.vault_path@ == other.vault_path@
        &&& self.max_video_buffer == other.max_video_buffer
        &&& self.max_audio_buffer == other.max_audio_buffer
        &&& self.max_storage_bytes == other.max_storage_bytes
        &&& self.max_foreign_storage_bytes == other.max_foreign_storage_bytes
        &&& self.max_foreign_per_owner_bytes == other.max_foreign_per_owner_bytes
        &&& self.evidence_ttl_secs == other.evidence_ttl_secs
    }

    fn copy(&self) -> (copy: Self)
        ensures
            copy.same(self),
    {
        StorageConfig {
            vault_path: self.vault_path.clone(),
            max_video_buffer: self.max_video_buffer,
            max_audio_buffer: self.max_audio_buffer,
            max_storage_bytes: self.max_storage_bytes,
            max_foreign_storage_bytes: self.max_foreign_storage_bytes,
            max_foreign_per_owner_bytes: self.max_foreign_per_owner_bytes,
            evidence_ttl_secs: self.evidence_ttl_secs,
        }
    }

    /// The limit of one foreign owner is within that of all foreigners, and that
    /// within the whole.
    pub open spec fn is_nested(&self) -> bool {
        self.max_foreign_per_owner_bytes <= self.max_foreign_storage_bytes
            <= self.max_storage_bytes
    }
}

impl Default for StorageConfig {
    fn default() -> (config: Self)
        ensures
            config.vault_path@ == paths::DEV_DEFAULT_VAULT_PATH@,
            config.max_video_buffer == 100,
            config.max_audio_buffer == 100,
            config.max_storage_bytes == 1000000000,
            config.max_foreign_storage_bytes == 500000000,
            config.max_foreign_per_owner_bytes == 50000000,
            config.evidence_ttl_secs == 300,
    {
        StorageConfig {
            vault_path: paths::DEV_DEFAULT_VAULT_PATH.to_owned(),
            max_video_buffer: 100,
            max_audio_buffer: 100,
            max_storage_bytes: 1000000000,
            max_foreign_storage_bytes: 500000000,
            max_foreign_per_owner_bytes: 50000000,
            evidence_ttl_secs: 300,
        }
    }
}

impl Default for HardwareConfig {
    fn default() -> (config: Self)
        ensures
            config == (HardwareConfig {
                camera_fps: 10,
                audio_sample_rate: 16000,
                audio_channels: 1,
            }),
    {
        HardwareConfig { camera_fps: 10, audio_sample_rate: 16000, audio_channels: 1 }
    }
}

impl HardwareConfig {
    /// The values brought into their ranges.
    pub open spec fn clamped(self) -> Self {
        HardwareConfig {
            camera_fps: if self.camera_fps < MIN_FPS {
                MIN_FPS
            } else {
                self.camera_fps
            },
            audio_sample_rate: if self.audio_sample_rate > MAX_SAMPLE_RATE {
                MAX_SAMPLE_RATE
            } else {
                self.audio_sample_rate
            },
            audio_channels: if self.audio_channels > MAX_CHANNELS {
                MAX_CHANNELS
            } else {
                self.audio_channels
            },
        }
    }

    /// Repairs what a file may have set out of range.
    pub fn validated(self) -> (config: Self)
        ensures
            config == self.clamped(),
    {
        HardwareConfig {
            camera_fps: if self.camera_fps < MIN_FPS {
                MIN_FPS
            } else {
                self.camera_fps
            },
            audio_sample_rate: if self.audio_sample_rate > MAX_SAMPLE_RATE {
                MAX_SAMPLE_RATE
            } else {
                self.audio_sample_rate
            },
            audio_channels: if self.audio_channels > MAX_CHANNELS {
                MAX_CHANNELS
            } else {
                self.audio_channels
            },
        }
    }

    /// A value within its range is left alone, and one outside it is brought to the near
    /// end: at least one frame a second, at most 192 kilohertz and at most eight
    /// channels.
    pub proof fn law_values_are_brought_into_range(self)
        ensures
            self.clamped().camera_fps == vstd::math::max(self.camera_fps as int, 1),
            self.clamped().audio_sample_rate == vstd::math::min(
                self.audio_sample_rate as int,
                192000,
            ),
            self.clamped().audio_channels == vstd::math::min(self.audio_channels as int, 8),
    {
    }

    /// To repair twice is to repair once.
    pub proof fn law_validation_is_idempotent(self)
        ensures
            self.clamped().clamped() == self.clamped(),
    {
    }
}

impl NodeInstance {
    /// The defaults, for a symbol size and a bundle size.
    pub fn with_symbols(symbol_size: usize, symbol_bundle_size: u32) -> (instance: Self)
        ensures
            instance.network.archival_peers@.len() == 0,
            instance.network.bootstrap_peers@.len() == 0,
            instance.network.symbol_size == symbol_size,
            instance.network.symbol_bundle_size == symbol_bundle_size,
            text::views(instance.network.listen_addresses@) =~= seq![
                "/ip4/0.0.0.0/udp/0/quic-v1"@,
                "/ip4/0.0.0.0/tcp/0"@,
            ],
            instance.storage.vault_path@ == paths::DEV_DEFAULT_VAULT_PATH@,
            instance.storage.max_video_buffer == 100,
            instance.storage.max_audio_buffer == 100,
            instance.storage.max_storage_bytes == 1000000000,
            instance.storage.max_foreign_storage_bytes == 500000000,
            instance.storage.max_foreign_per_owner_bytes == 50000000,
            instance.storage.evidence_ttl_secs == 300,
            instance.hardware == (HardwareConfig {
                camera_fps: 10,
                audio_sample_rate: 16000,
                audio_channels: 1,
            }),
    {
        NodeInstance {
            storage: StorageConfig::default(),
            network: NetworkInstance::with_symbols(symbol_size, symbol_bundle_size),
            hardware: HardwareConfig::default(),
        }
    }
}

/// The first custody peer that cannot be pushed to, or the number of peers.
pub open spec fn first_undialable(peers: Seq<ArchivalPeer>) -> nat
    decreases peers.len(),
{
    if peers.len() == 0 {
        0
    } else if peer_id_in(peers[0].address@) is None {
        0
    } else {
        1 + first_undialable(peers.drop_first())
    }
}

proof fn lemma_first_undialable(peers: Seq<ArchivalPeer>, n: int)
    requires
        0 <= n <= peers.len(),
        forall|j: int| 0 <= j < n ==> peer_id_in((#[trigger] peers[j]).address@) is Some,
        n < peers.len() ==> peer_id_in(peers[n].address@) is None,
    ensures
        first_undialable(peers) == n,
    decreases n,
{
    if n > 0 {
        lemma_first_undialable(peers.drop_first(), n - 1);
    }
}

/// Every custody peer of the configuration can be pushed to.
pub open spec fn is_coherent(config: NodeConfig) -> bool {
    forall|i: int|
        0 <= i < config.network.archival_peers@.len() ==> peer_id_in(
            (#[trigger] config.network.archival_peers@[i]).address@,
        ) is Some
}

/// What looks wrong about a configuration, in the order in which it is reported.
pub open spec fn warnings_of(config: NodeConfig, has_stronghold_role: bool) -> Seq<ConfigWarning> {
    let net = config.network;
    let quorum = if net.target_replica_count > net.archival_peers@.len() {
        seq![ConfigWarning::QuorumOutOfReach]
    } else {
        Seq::empty()
    };
    let role = if !has_stronghold_role && net.archival_peers@.len() > 0 {
        seq![ConfigWarning::NoStrongholdRole]
    } else {
        Seq::empty()
    };
    let caps = if !config.storage.is_nested() {
        seq![ConfigWarning::CapsOutOfOrder]
    } else {
        Seq::empty()
    };
    let product = net.symbol_bundle_size * net.symbol_size;
    let bundle = if net.max_chunk_size_bytes < product <= usize::MAX {
        seq![ConfigWarning::BundleTooLarge]
    } else {
        Seq::empty()
    };
    quorum + role + caps + bundle
}

/// `checked` is what the check of a configuration gives.
pub open spec fn is_checked(
    config: NodeConfig,
    has_stronghold_role: bool,
    checked: Result<Vec<ConfigWarning>, Incoherence>,
) -> bool {
    match checked {
        Ok(warnings) => is_coherent(config) && warnings@ == warnings_of(
            config,
            has_stronghold_role,
        ),
        Err(Incoherence::UndialableArchivalPeer { address }) => {
            let i = first_undialable(config.network.archival_peers@) as int;
            &&& !is_coherent(config)
            &&& i < config.network.archival_peers@.len()
            &&& address@ == config.network.archival_peers@[i].address@
        },
    }
}

/// A configuration passes exactly where every custody peer can be pushed to, and the
/// first that cannot is named; each warning is given exactly where its cause is there.
pub proof fn law_every_fault_is_found(
    config: NodeConfig,
    has_stronghold_role: bool,
    checked: Result<Vec<ConfigWarning>, Incoherence>,
    k: int,
)
    requires
        is_checked(config, has_stronghold_role, checked),
    ensures
        checked is Ok <==> (forall|i: int|
            0 <= i < config.network.archival_peers@.len() ==> peer_id_in(
                (#[trigger] config.network.archival_peers@[i]).address@,
            ) is Some),
        0 <= k < config.network.archival_peers@.len() && peer_id_in(
            config.network.archival_peers@[k].address@,
        ) is None && (forall|j: int|
            0 <= j < k ==> peer_id_in(
                (#[trigger] config.network.archival_peers@[j]).address@,
            ) is Some) ==> (checked matches Err(Incoherence::UndialableArchivalPeer { address })
            && address@ == config.network.archival_peers@[k].address@),
        checked matches Ok(warnings) ==> {
            let net = config.network;
            let store = config.storage;
            &&& warnings@.contains(ConfigWarning::QuorumOutOfReach) <==> net.target_replica_count
                > net.archival_peers@.len()
            &&& warnings@.contains(ConfigWarning::NoStrongholdRole) <==> !has_stronghold_role
                && net.archival_peers@.len() > 0
            &&& warnings@.contains(ConfigWarning::CapsOutOfOrder)
                <==> store.max_foreign_per_owner_bytes > store.max_foreign_storage_bytes
                || store.max_foreign_storage_bytes > store.max_storage_bytes
            &&& warnings@.contains(ConfigWarning::BundleTooLarge) <==> net.max_chunk_size_bytes
                < net.symbol_bundle_size * net.symbol_size <= usize::MAX
            &&& warnings@.no_duplicates()
        },
{
    let peers = config.network.archival_peers@;
    if 0 <= k < peers.len() && peer_id_in(peers[k].address@) is None && (forall|j: int|
        0 <= j < k ==> peer_id_in((#[trigger] peers[j]).address@) is Some) {
        lemma_first_undialable(peers, k);
    }
    match checked {
        Ok(warnings) => {
            let net = config.network;
            let n1 = if net.target_replica_count > net.archival_peers@.len() {
                1int
            } else {
                0int
            };
            let n2 = if !has_stronghold_role && net.archival_peers@.len() > 0 {
                n1 + 1
            } else {
                n1
            };
            let n3 = if !config.storage.is_nested() {
                n2 + 1
            } else {
                n2
            };
            let w = warnings@;
            assert(n1 == 1 ==> w[0] == ConfigWarning::QuorumOutOfReach);
            assert(n2 == n1 + 1 ==> w[n1] == ConfigWarning::NoStrongholdRole);
            assert(n3 == n2 + 1 ==> w[n2] == ConfigWarning::CapsOutOfOrder);
            assert(net.max_chunk_size_bytes < net.symbol_bundle_size * net.symbol_size
                <= usize::MAX ==> w[n3] == ConfigWarning::BundleTooLarge);
        },
        Err(_) => {},
    }
}

/// Checks an assembled configuration.
pub fn validate_node(config: &NodeConfig, has_stronghold_role: bool) -> (checked: Result<
    Vec<ConfigWarning>,
    Incoherence,
>)
    ensures
        is_checked(*config, has_stronghold_role, checked),
{
    let net = &config.network;
    let mut i: usize = 0;
    while i < net.archival_peers.len()
        invariant
            i <= net.archival_peers@.len(),
            *net == config.network,
            forall|j: int|
                0 <= j < i ==> peer_id_in((#[trigger] net.archival_peers@[j]).address@) is Some,
        decreases net.archival_peers@.len() - i,
    {
        if net.archival_peers[i].peer_id().is_none() {
            proof {
                lemma_first_undialable(net.archival_peers@, i as int);
                assert(config.network.archival_peers@[i as int] == net.archival_peers@[i as int]);
            }
            return Err(
                Incoherence::UndialableArchivalPeer {
                    address: net.archival_peers[i].address.clone(),
                },
            );
        }
        i += 1;
    }
    let mut warnings: Vec<ConfigWarning> = Vec::new();
    if net.target_replica_count > net.archival_peers.len() {
        warnings.push(ConfigWarning::QuorumOutOfReach);
    }
    if !has_stronghold_role && net.archival_peers.len() > 0 {
        warnings.push(ConfigWarning::NoStrongholdRole);
    }
    let per_owner: u64 = config.storage.max_foreign_per_owner_bytes;
    let foreign: u64 = config.storage.max_foreign_storage_bytes;
    let total: u64 = config.storage.max_storage_bytes;
    if per_owner > foreign || foreign > total {
        warnings.push(ConfigWarning::CapsOutOfOrder);
    }
    let bundle: usize = net.symbol_bundle_size as usize;
    match bundle.checked_mul(net.symbol_size) {
        Some(product) => {
            if product > net.max_chunk_size_bytes {
                warnings.push(ConfigWarning::BundleTooLarge);
            }
        },
        None => {},
    }
    assert(warnings@ =~= warnings_of(*config, has_stronghold_role));
    Ok(warnings)
}

/// A configuration that passed the check. There is no other way to make one.
pub struct ValidatedNodeConfig(NodeConfig);

impl ValidatedNodeConfig {
    #[verifier::type_invariant]
    spec fn is_valid(self) -> bool {
        is_coherent(self.0)
    }

    /// The configuration that was checked.
    pub closed spec fn config(&self) -> NodeConfig {
        self.0
    }

    pub fn into_inner(self) -> (config: NodeConfig)
        ensures
            config == self.config(),
            is_coherent(config),
    {
        proof {
            use_type_invariant(&self);
        }
        self.0
    }

    pub fn get(&self) -> (config: &NodeConfig)
        ensures
            *config == self.config(),
            is_coherent(*config),
    {
        proof {
            use_type_invariant(self);
        }
        &self.0
    }
}

impl NodeConfig {
    /// `self` is made of the profile and the instance data.
    pub open spec fn combines(&self, pins: ProfilePins, instance: NodeInstance) -> bool {
        &&& self.storage.same(&instance.storage)
        &&& self.network.projects(pins, instance.network)
        &&& self.hardware == instance.hardware.clamped()
    }

    /// The storage limits are those that the operator set, and the hardware values are
    /// theirs too, within their ranges.
    pub proof fn law_limits_are_the_operators(self, pins: ProfilePins, instance: NodeInstance)
        requires
            self.combines(pins, instance),
        ensures
            self.storage.vault_path@ == instance.storage.vault_path@,
            self.storage.max_video_buffer == instance.storage.max_video_buffer,
            self.storage.max_audio_buffer == instance.storage.max_audio_buffer,
            self.storage.max_storage_bytes == instance.storage.max_storage_bytes,
            self.storage.max_foreign_storage_bytes == instance.storage.max_foreign_storage_bytes,
            self.storage.max_foreign_per_owner_bytes
                == instance.storage.max_foreign_per_owner_bytes,
            self.storage.evidence_ttl_secs == instance.storage.evidence_ttl_secs,
            instance.hardware.camera_fps >= 1 ==> self.hardware.camera_fps
                == instance.hardware.camera_fps,
            instance.hardware.audio_sample_rate <= 192000 ==> self.hardware.audio_sample_rate
                == instance.hardware.audio_sample_rate,
            instance.hardware.audio_channels <= 8 ==> self.hardware.audio_channels
                == instance.hardware.audio_channels,
    {
    }

    pub fn from_parts(pins: &ProfilePins, instance: &NodeInstance) -> (config: Self)
        ensures
            config.combines(*pins, *instance),
    {
        NodeConfig {
            storage: instance.storage.copy(),
            network: NetworkConfig::from_profile(pins, &instance.network),
            hardware: instance.hardware.validated(),
        }
    }

    /// `assembled` is what comes of a profile and instance data.
    pub open spec fn is_assembled(
        pins: ProfilePins,
        instance: NodeInstance,
        assembled: Result<(ValidatedNodeConfig, Vec<ConfigWarning>), Incoherence>,
    ) -> bool {
        match assembled {
            Ok((valid, warnings)) => {
                &&& valid.config().combines(pins, instance)
                &&& is_coherent(valid.config())
                &&& warnings@ == warnings_of(valid.config(), pins.has_stronghold_role)
                &&& first_undialable(instance.network.archival_peers@)
                    == instance.network.archival_peers@.len()
            },
            Err(Incoherence::UndialableArchivalPeer { address }) => {
                let i = first_undialable(instance.network.archival_peers@) as int;
                &&& i < instance.network.archival_peers@.len()
                &&& address@ == instance.network.archival_peers@[i].address@
            },
        }
    }

    /// Whatever an operator sets makes a configuration, unless there is a custody peer
    /// that nobody could be pushed to, and then the first such peer is named.
    pub proof fn law_only_undialable_peers_stop_a_node(
        pins: ProfilePins,
        instance: NodeInstance,
        assembled: Result<(ValidatedNodeConfig, Vec<ConfigWarning>), Incoherence>,
        k: int,
    )
        requires
            Self::is_assembled(pins, instance, assembled),
            0 <= k <= instance.network.archival_peers@.len(),
            forall|j: int|
                0 <= j < k ==> peer_id_in(
                    (#[trigger] instance.network.archival_peers@[j]).address@,
                ) is Some,
            k < instance.network.archival_peers@.len() ==> peer_id_in(
                instance.network.archival_peers@[k].address@,
            ) is None,
        ensures
            assembled is Ok <==> k == instance.network.archival_peers@.len(),
            assembled matches Err(Incoherence::UndialableArchivalPeer { address }) ==> address@
                == instance.network.archival_peers@[k].address@,
            assembled matches Ok((valid, _)) ==> valid.config().combines(pins, instance),
    {
        lemma_first_undialable(instance.network.archival_peers@, k);
    }

    /// Puts a configuration together and checks it. What looks wrong comes back
    /// beside it.
    pub fn assemble(pins: &ProfilePins, instance: &NodeInstance) -> (assembled: Result<
        (ValidatedNodeConfig, Vec<ConfigWarning>),
        Incoherence,
    >)
        ensures
            Self::is_assembled(*pins, *instance, assembled),
    {
        let config = Self::from_parts(pins, instance);
        proof {
            lemma_same_first_undialable(
                config.network.archival_peers@,
                instance.network.archival_peers@,
            );
        }
        match validate_node(&config, pins.has_stronghold_role) {
            Ok(warnings) => {
                proof {
                    lemma_first_undialable(
                        config.network.archival_peers@,
                        config.network.archival_peers@.len() as int,
                    );
                }
                Ok((ValidatedNodeConfig(config), warnings))
            },
            Err(e) => Err(e),
        }
    }

    /// A profile with the default instance data is always coherent.
    pub fn for_profile(pins: &ProfilePins, symbol_size: usize, symbol_bundle_size: u32) -> (
        assembled: Result<(ValidatedNodeConfig, Vec<ConfigWarning>), Incoherence>)
        ensures
            assembled is Ok,
            assembled matches Ok((valid, warnings)) ==> {
                &&& valid.config().network.target_replica_count == pins.target_replica_count
                &&& valid.config().network.require_psk == pins.require_psk
                &&& valid.config().network.protocol_version@ == pins.protocol_version@
                &&& valid.config().network.max_chunk_size_bytes == pins.max_chunk_size_bytes
                &&& valid.config().network.video_topic@ == pins.video_topic@
                &&& valid.config().network.audio_topic@ == pins.audio_topic@
                &&& valid.config().network.control_topic@ == pins.control_topic@
                &&& valid.config().network.revocation_topic@ == pins.revocation_topic@
                &&& valid.config().network.bootstrap_peers@.len() == 0
                &&& valid.config().network.archival_peers@.len() == 0
                &&& valid.config().network.symbol_size == symbol_size
                &&& valid.config().network.symbol_bundle_size == symbol_bundle_size
                &&& text::views(valid.config().network.listen_addresses@) =~= seq![
                    "/ip4/0.0.0.0/udp/0/quic-v1"@,
                    "/ip4/0.0.0.0/tcp/0"@,
                ]
                &&& valid.config().storage.vault_path@ == paths::DEV_DEFAULT_VAULT_PATH@
                &&& valid.config().storage.max_video_buffer == 100
                &&& valid.config().storage.max_audio_buffer == 100
                &&& valid.config().storage.max_storage_bytes == 1000000000
                &&& valid.config().storage.max_foreign_storage_bytes == 500000000
                &&& valid.config().storage.max_foreign_per_owner_bytes == 50000000
                &&& valid.config().storage.evidence_ttl_secs == 300
                &&& valid.config().hardware == (HardwareConfig {
                    camera_fps: 10,
                    audio_sample_rate: 16000,
                    audio_channels: 1,
                })
                &&& warnings@ == warnings_of(valid.config(), pins.has_stronghold_role)
            },
    {
        let instance = NodeInstance::with_symbols(symbol_size, symbol_bundle_size);
        let assembled = Self::assemble(pins, &instance);
        proof {
            if assembled is Ok {
                let config = (assembled->Ok_0).0.config();
                assert(text::views(config.network.bootstrap_peers@).len() == 0);
                assert(addresses(config.network.archival_peers@).len() == 0);
            }
        }
        assembled
    }
}

proof fn lemma_same_first_undialable(a: Seq<ArchivalPeer>, b: Seq<ArchivalPeer>)
    requires
        addresses(a) == addresses(b),
    ensures
        a.len() == b.len(),
        first_undialable(a) == first_undialable(b),
        forall|i: int| 0 <= i < a.len() ==> (#[trigger] a[i]).address@ == b[i].address@,
    decreases a.len(),
{
    assert(addresses(a).len() == a.len());
    assert(addresses(b).len() == b.len());
    assert forall|i: int| 0 <= i < a.len() implies (#[trigger] a[i]).address@ == b[i].address@ by {
        assert(addresses(a)[i] == a[i].address@);
        assert(addresses(b)[i] == b[i].address@);
    }
    if a.len() > 0 {
        assert(addresses(a.drop_first()) =~= addresses(a).drop_first());
        assert(addresses(b.drop_first()) =~= addresses(b).drop_first());
        lemma_same_first_undialable(a.drop_first(), b.drop_first());
    }
}

impl ConfigError {
    /// What the error says; `detail` describes an incoherence.
    pub fn message(&self, detail: &str) -> (s: String)
        ensures
            s@ == match self {
                ConfigError::NotFound(msg) => "Configuration not found: "@ + msg@,
                ConfigError::ParseError(msg) => "Failed to parse configuration: "@ + msg@,
                ConfigError::PermissionDenied(msg) => "Permission denied reading config: "@
                    + msg@,
                ConfigError::Incoherent(_) => "Incoherent configuration: "@ + detail@,
            },
    {
        match self {
            ConfigError::NotFound(msg) => text::join("Configuration not found: ", msg.as_str()),
            ConfigError::ParseError(msg) => {
                text::join("Failed to parse configuration: ", msg.as_str())
            },
            ConfigError::PermissionDenied(msg) => {
                text::join("Permission denied reading config: ", msg.as_str())
            },
            ConfigError::Incoherent(_) => text::join("Incoherent configuration: ", detail),
        }
    }
}

} // verus!
