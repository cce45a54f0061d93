//! The thresholds of the mesh-level actors, and the keyset that they share.
use vstd::prelude::*;
use crate::bytes;
use crate::crypto;
use crate::lists;

verus! {

/// Maximum simultaneous peers in the topology gate.
pub const TOPOLOGY_TOTAL_CAPACITY: usize = 192;

/// Maximum number of peers held as topology anchors at any time.
pub const TOPOLOGY_MAX_ANCHORS: usize = 4;

/// Number of mesh-fingerprint snapshots retained by the eclipse probe.
pub const ECLIPSE_PROBE_WINDOW: usize = 6;

/// Consecutive stale ticks before a peer is confirmed silent.
pub const CANARY_CONFIRM_TICKS: u32 = 2;

/// Cap on the per-peer first-seen timestamp map.
pub const PEER_FIRST_SEEN_CAP: usize = 10000;

/// Cap on the per-peer DID cache.
pub const PEER_DID_CACHE_CAP: usize = 10000;

/// Period of the topology tick.
pub const TOPOLOGY_TICK_SECS: u64 = 300;

/// Per-second rate limit on peer-discovery processing.
pub const PEER_DISCOVERY_RATE_LIMIT_PER_SEC: u32 = 10;

/// Occupancy of the topology gate below which a critical risk re-bootstraps.
pub const RE_BOOTSTRAP_TRIGGER_PEER_COUNT: usize = 96;

/// The name of a community.
#[derive(Debug, Clone, Copy)]
pub struct CommunityId(pub [u8; 32]);

impl View for CommunityId {
    type V = Seq<u8>;

    open spec fn view(&self) -> Seq<u8> {
        self.0@
    }
}

/// The names of a list of communities.
pub open spec fn ids(list: Seq<CommunityId>) -> Seq<Seq<u8>> {
    list.map_values(|c: CommunityId| c@)
}

/// The merged keyset holds exactly the live and the static communities, and
/// repeats none where the live ones do not.
pub proof fn law_keyset_is_the_union(base: Seq<Seq<u8>>, extras: Seq<Seq<u8>>, id: Seq<u8>)
    ensures
        lists::merged(base, extras).contains(id) <==> base.contains(id) || extras.contains(id),
        base.no_duplicates() ==> lists::merged(base, extras).no_duplicates(),
        base.is_prefix_of(lists::merged(base, extras)),
{
    lists::lemma_merged(base, extras, id);
    if base.no_duplicates() {
        lists::lemma_merged_repeats_nothing(base, extras);
    }
}

fn contains_id(list: &Vec<CommunityId>, id: &CommunityId) -> (b: bool)
    ensures
        b == ids(list@).contains(id@),
{
    let mut i: usize = 0;
    while i < list.len()
        invariant
            i <= list@.len(),
            forall|j: int| 0 <= j < i ==> #[trigger] ids(list@)[j] != id@,
        decreases list@.len() - i,
    {
        if bytes::equal(list[i].0.as_slice(), id.0.as_slice()) {
            assert(ids(list@)[i as int] == id@);
            return true;
        }
        i += 1;
    }
    false
}

/// The live community keyset: the registry's snapshot and the static extras.
pub fn current_community_ids(snapshot: &Vec<CommunityId>, extras: &Vec<CommunityId>) -> (keyset:
    Vec<CommunityId>)
    ensures
        ids(keyset@) == lists::merged(ids(snapshot@), ids(extras@)),
{
    let mut keyset: Vec<CommunityId> = Vec::new();
    let mut i: usize = 0;
    while i < snapshot.len()
        invariant
            i <= snapshot@.len(),
            keyset@ == snapshot@.subrange(0, i as int),
        decreases snapshot@.len() - i,
    {
        keyset.push(snapshot[i]);
        i += 1;
        assert(keyset@ =~= snapshot@.subrange(0, i as int));
    }
    assert(snapshot@.subrange(0, i as int) =~= snapshot@);
    let ghost all = ids(extras@);
    let mut k: usize = 0;
    assert(all.subrange(0, 0) =~= Seq::<Seq<u8>>::empty());
    while k < extras.len()
        invariant
            k <= extras@.len(),
            all == ids(extras@),
            ids(keyset@) == lists::merged(ids(snapshot@), all.subrange(0, k as int)),
        decreases extras@.len() - k,
    {
        let ghost before = ids(keyset@);
        proof {
            let next = all.subrange(0, k + 1);
            assert(next.drop_last() =~= all.subrange(0, k as int));
            assert(next.last() == extras@[k as int]@);
        }
        if !contains_id(&keyset, &extras[k]) {
            keyset.push(extras[k]);
            assert(ids(keyset@) =~= before.push(extras@[k as int]@));
        }
        k += 1;
    }
    assert(all.subrange(0, k as int) =~= all);
    keyset
}

/// The keys of the communities, one each, for the purpose that `context` names.
pub fn community_keys(context: &str, communities: &Vec<CommunityId>) -> (keys: Vec<[u8; 32]>)
    ensures
        keys@.len() == communities@.len(),
        forall|i: int|
            0 <= i < keys@.len() ==> (#[trigger] keys@[i])@ == crypto::blake3_derived_key(
                context@,
                communities@[i]@,
            ),
{
    let mut keys: Vec<[u8; 32]> = Vec::new();
    let mut i: usize = 0;
    while i < communities.len()
        invariant
            i <= communities@.len(),
            keys@.len() == i,
            forall|j: int|
                0 <= j < i ==> (#[trigger] keys@[j])@ == crypto::blake3_derived_key(
                    context@,
                    communities@[j]@,
                ),
        decreases communities@.len() - i,
    {
        keys.push(crypto::derive_key(context, communities[i].0.as_slice()));
        i += 1;
    }
    keys
}

/// An encrypted message as it goes out: the nonce, then the ciphertext.
pub fn sealed_payload(nonce: Vec<u8>, ciphertext: &Vec<u8>) -> (payload: Vec<u8>)
    ensures
        payload@ == nonce@ + ciphertext@,
{
    let mut payload = nonce;
    bytes::extend(&mut payload, ciphertext.as_slice());
    payload
}

} // verus!
