//! Trust: the peers this node knows, and the communities it belongs to.
use vstd::prelude::*;
use vstd::string::*;
use crate::bytes;
use crate::text;
use crate::text_map::TextMap;

verus! {

/// What is known of a peer.
#[derive(Debug)]
pub struct PeerRecord {
    pub pet_name: Option<String>,
    /// The name of the peer's trust level.
    pub level: String,
    pub score: i64,
    pub is_blacklisted: bool,
}

/// What is told of a peer.
#[derive(Debug)]
pub struct PeerSummary {
    pub did: String,
    pub pet_name: Option<String>,
    pub level: String,
    pub score: i64,
    pub is_blacklisted: bool,
}

/// A member of a community.
#[derive(Debug)]
pub struct Member {
    pub did: String,
    pub joined_at: u64,
    /// How many others vouched for the member.
    pub vouches: usize,
}

/// What a community lets its Stronghold do.
#[derive(Debug, Clone, Copy, PartialEq, Eq, Structural)]
pub struct GrantPermissions {
    pub playback: bool,
    pub export: bool,
}

/// A community as it was imported.
#[derive(Debug)]
pub struct Community {
    pub fingerprint: [u8; 32],
    pub name: String,
    pub members: Vec<Member>,
    /// The rank of the trust that membership confers.
    pub baseline_trust: u8,
    pub expires_at: u64,
    pub quorum: u16,
    pub grants: GrantPermissions,
    pub stronghold_did: Option<String>,
}

/// What is told of a community.
#[derive(Debug)]
pub struct CommunitySummary {
    pub id: [u8; 32],
    pub name: String,
    pub member_count: u16,
    pub expires_at: u64,
    pub quorum: u16,
}

/// What is told of a member.
#[derive(Debug)]
pub struct MemberSummary {
    pub did: String,
    pub joined_at: u64,
    pub vouch_count: u16,
    pub pet_name: Option<String>,
}

/// A community with its members.
#[derive(Debug)]
pub struct CommunityRoster {
    pub summary: CommunitySummary,
    pub members: Vec<MemberSummary>,
    pub grants: GrantPermissions,
    pub stronghold_did: Option<String>,
}

/// A community as the trust projection needs it.
#[derive(Debug)]
pub struct ProjectedCommunity {
    pub baseline_trust: u8,
    pub members: Vec<String>,
}

/// What was asked of the trust actor.
#[derive(Debug)]
pub enum TrustCommand {
    RecordOffense,
    CheckTrust,
    IsBlacklisted,
    ListPeers,
    SetTrustLevel { did: String },
    AssignPetName,
    RemovePeer,
    /// `verified` is the outcome of checking the vouches and the expiry.
    ImportCommunity { community: Community, verified: Result<(), String> },
    DissolveCommunity { community_id: [u8; 32] },
    ListCommunities,
    GetCommunity { community_id: [u8; 32] },
}

/// What the trust actor does about a command.
#[derive(Debug)]
pub enum TrustAction {
    /// The reputation registry handles the command by itself.
    AskRegistry,
    /// Answer with the peers.
    Peers(Vec<PeerSummary>),
    /// Set the level of a known peer, under this pet name.
    SetPeer { pet_name: String },
    /// Register an unknown peer with the level.
    RegisterPeer,
    /// Load these communities into the projection, then answer that the import
    /// succeeded under this fingerprint.
    Imported { id: [u8; 32], projection: Vec<ProjectedCommunity> },
    /// Answer that the import failed.
    ImportFailed(String),
    /// Load these communities into the projection, then answer that the
    /// community is dissolved.
    Dissolved { id: [u8; 32], projection: Vec<ProjectedCommunity> },
    /// Answer that there is no such community.
    NotFound,
    /// Answer with the communities.
    Communities(Vec<CommunitySummary>),
    /// Answer with a community's roster, if there is such a community.
    Roster(Option<CommunityRoster>),
}

/// A count in sixteen bits, at most the largest there is.
pub open spec fn count16(n: nat) -> u16 {
    if n <= u16::MAX {
        n as u16
    } else {
        u16::MAX
    }
}

fn saturate16(n: usize) -> (c: u16)
    ensures
        c == count16(n as nat),
{
    if n <= u16::MAX as usize {
        n as u16
    } else {
        u16::MAX
    }
}

/// `p` is the projection of `c`: its trust and the names of its members in order.
pub open spec fn projects(p: ProjectedCommunity, c: Community) -> bool {
    &&& p.baseline_trust == c.baseline_trust
    &&& text::views(p.members@) == c.members@.map_values(|m: Member| m.did@)
}

/// `ps` are the projections of `cs`, in order.
pub open spec fn projects_all(ps: Seq<ProjectedCommunity>, cs: Seq<Community>) -> bool {
    &&& ps.len() == cs.len()
    &&& forall|i: int| 0 <= i < ps.len() ==> projects(#[trigger] ps[i], cs[i])
}

/// `s` tells of `c`.
pub open spec fn summarizes(s: CommunitySummary, c: Community) -> bool {
    &&& s.id@ == c.fingerprint@
    &&& s.name@ == c.name@
    &&& s.member_count == count16(c.members@.len())
    &&& s.expires_at == c.expires_at
    &&& s.quorum == c.quorum
}

/// `a` and `b` are the same text, or both absent.
pub open spec fn same_text(a: Option<String>, b: Option<String>) -> bool {
    match (a, b) {
        (Some(x), Some(y)) => x@ == y@,
        (None, None) => true,
        _ => false,
    }
}

fn copy_text(t: &Option<String>) -> (c: Option<String>)
    ensures
        same_text(c, *t),
{
    match t {
        Some(s) => Some(s.clone()),
        None => None,
    }
}

fn project(c: &Community) -> (p: ProjectedCommunity)
    ensures
        projects(p, *c),
{
    let mut members: Vec<String> = Vec::new();
    let mut i: usize = 0;
    while i < c.members.len()
        invariant
            i <= c.members@.len(),
            members@.len() == i,
            forall|j: int| 0 <= j < i ==> (#[trigger] members@[j])@ == c.members@[j].did@,
        decreases c.members@.len() - i,
    {
        members.push(c.members[i].did.clone());
        i += 1;
    }
    assert(text::views(members@) =~= c.members@.map_values(|m: Member| m.did@));
    ProjectedCommunity { baseline_trust: c.baseline_trust, members }
}

/// What is told of a community in a list.
pub fn summarize_community(c: &Community) -> (s: CommunitySummary)
    ensures
        summarizes(s, *c),
{
    CommunitySummary {
        id: c.fingerprint,
        name: c.name.clone(),
        member_count: saturate16(c.members.len()),
        expires_at: c.expires_at,
        quorum: c.quorum,
    }
}

/// The peers and communities of this node. No two communities have one fingerprint.
pub struct TrustActor {
    pub peers: TextMap<PeerRecord>,
    pub communities: Vec<Community>,
}

/// The position of the community with this fingerprint, or their number.
pub open spec fn find(communities: Seq<Community>, id: Seq<u8>) -> int
    decreases communities.len(),
{
    if communities.len() == 0 {
        0
    } else if communities[0].fingerprint@ == id {
        0
    } else {
        1 + find(communities.drop_first(), id)
    }
}

proof fn lemma_find(communities: Seq<Community>, id: Seq<u8>)
    ensures
        0 <= find(communities, id) <= communities.len(),
        find(communities, id) < communities.len() ==> communities[find(
            communities,
            id,
        )].fingerprint@ == id,
        forall|j: int|
            0 <= j < find(communities, id) ==> (#[trigger] communities[j]).fingerprint@ != id,
    decreases communities.len(),
{
    if communities.len() > 0 && communities[0].fingerprint@ != id {
        lemma_find(communities.drop_first(), id);
        assert forall|j: int| 0 <= j < find(communities, id) implies (
        #[trigger] communities[j]).fingerprint@ != id by {
            if j > 0 {
                assert(communities.drop_first()[j - 1] == communities[j]);
            }
        }
    }
}

proof fn lemma_projection_names_members(p: ProjectedCommunity, c: Community)
    requires
        projects(p, c),
    ensures
        p.members@.len() == c.members@.len(),
        forall|m: int|
            0 <= m < c.members@.len() ==> (#[trigger] p.members@[m])@ == c.members@[m].did@,
{
    let names = c.members@.map_values(|m: Member| m.did@);
    assert(text::views(p.members@).len() == p.members@.len());
    assert(names.len() == c.members@.len());
    assert forall|m: int| 0 <= m < c.members@.len() implies (#[trigger] p.members@[m])@
        == c.members@[m].did@ by {
        assert(text::views(p.members@)[m] == p.members@[m]@);
        assert(names[m] == c.members@[m].did@);
    }
}

impl TrustActor {
    pub open spec fn wf(&self) -> bool {
        &&& self.peers.wf()
        &&& forall|i: int, j: int|
            0 <= i < j < self.communities@.len() ==> (
            #[trigger] self.communities@[i]).fingerprint@ != (
            #[trigger] self.communities@[j]).fingerprint@
    }

    /// There is a community with this fingerprint.
    pub open spec fn has_community(&self, id: Seq<u8>) -> bool {
        find(self.communities@, id) < self.communities@.len()
    }

    /// The community with this fingerprint, if it is held.
    pub open spec fn held(&self, id: Seq<u8>) -> Option<Community> {
        if self.has_community(id) {
            Some(self.communities@[find(self.communities@, id)])
        } else {
            None
        }
    }

    /// The pet name of a peer, if the peer is known and has one.
    pub open spec fn alias(&self, did: Seq<char>) -> Option<Seq<char>> {
        if self.peers@.dom().contains(did) {
            match self.peers@[did].pet_name {
                Some(s) => Some(s@),
                None => None,
            }
        } else {
            None
        }
    }

    pub fn new() -> (actor: Self)
        ensures
            actor.wf(),
            actor.peers@ == Map::<Seq<char>, PeerRecord>::empty(),
            actor.communities@ == Seq::<Community>::empty(),
    {
        TrustActor { peers: TextMap::new(), communities: Vec::new() }
    }

    fn position(&self, id: &[u8; 32]) -> (p: usize)
        ensures
            p == find(self.communities@, id@),
            p <= self.communities@.len(),
    {
        let mut p: usize = 0;
        proof {
            lemma_find(self.communities@, id@);
        }
        while p < self.communities.len()
            invariant
                p <= self.communities@.len(),
                p <= find(self.communities@, id@),
                find(self.communities@, id@) <= self.communities@.len(),
                forall|j: int|
                    0 <= j < find(self.communities@, id@) ==> (
                    #[trigger] self.communities@[j]).fingerprint@ != id@,
                find(self.communities@, id@) < self.communities@.len() ==> self.communities@[find(
                    self.communities@,
                    id@,
                )].fingerprint@ == id@,
            decreases self.communities@.len() - p,
        {
            if bytes::equal(self.communities[p].fingerprint.as_slice(), id.as_slice()) {
                return p;
            }
            p += 1;
        }
        p
    }

    fn alias_of(&self, did: &String) -> (name: Option<String>)
        requires
            self.wf(),
        ensures
            match self.alias(did@) {
                Some(n) => name matches Some(s) && s@ == n,
                None => name is None,
            },
    {
        match self.peers.get(did) {
            Some(record) => copy_text(&record.pet_name),
            None => None,
        }
    }

    fn project_from(&self, mut projection: Vec<ProjectedCommunity>) -> (all: Vec<
        ProjectedCommunity,
    >)
        ensures
            all@.len() == projection@.len() + self.communities@.len(),
            all@.subrange(0, projection@.len() as int) == projection@,
            projects_all(
                all@.subrange(projection@.len() as int, all@.len() as int),
                self.communities@,
            ),
    {
        let ghost first = projection@;
        let mut i: usize = 0;
        while i < self.communities.len()
            invariant
                i <= self.communities@.len(),
                projection@.len() == first.len() + i,
                forall|j: int| 0 <= j < first.len() ==> projection@[j] == first[j],
                forall|j: int|
                    0 <= j < i ==> projects(
                        #[trigger] projection@[first.len() + j],
                        self.communities@[j],
                    ),
            decreases self.communities@.len() - i,
        {
            projection.push(project(&self.communities[i]));
            i += 1;
        }
        proof {
            assert(projection@.subrange(0, first.len() as int) =~= first);
            let tail = projection@.subrange(first.len() as int, projection@.len() as int);
            assert forall|j: int| 0 <= j < tail.len() implies projects(
                #[trigger] tail[j],
                self.communities@[j],
            ) by {
                assert(tail[j] == projection@[first.len() + j]);
            }
        }
        projection
    }

    /// The members of a community, with the pet names that this node has for them.
    pub open spec fn roster_of(&self, r: CommunityRoster, c: Community) -> bool {
        &&& summarizes(r.summary, c)
        &&& r.grants == c.grants
        &&& same_text(r.stronghold_did, c.stronghold_did)
        &&& r.members@.len() == c.members@.len()
        &&& forall|i: int|
            0 <= i < r.members@.len() ==> self.member_of(#[trigger] r.members@[i], c.members@[i])
    }

    /// `s` tells of the member `m`.
    pub open spec fn member_of(&self, s: MemberSummary, m: Member) -> bool {
        &&& s.did@ == m.did@
        &&& s.joined_at == m.joined_at
        &&& s.vouch_count == count16(m.vouches as nat)
        &&& match self.alias(m.did@) {
            Some(n) => s.pet_name matches Some(p) && p@ == n,
            None => s.pet_name is None,
        }
    }

    /// A community with its members.
    pub fn project_roster(&self, c: &Community) -> (r: CommunityRoster)
        requires
            self.wf(),
        ensures
            self.roster_of(r, *c),
    {
        let mut members: Vec<MemberSummary> = Vec::new();
        let mut i: usize = 0;
        while i < c.members.len()
            invariant
                self.wf(),
                i <= c.members@.len(),
                members@.len() == i,
                forall|j: int|
                    0 <= j < i ==> self.member_of(#[trigger] members@[j], c.members@[j]),
            decreases c.members@.len() - i,
        {
            let m = &c.members[i];
            members.push(
                MemberSummary {
                    did: m.did.clone(),
                    joined_at: m.joined_at,
                    vouch_count: saturate16(m.vouches),
                    pet_name: self.alias_of(&m.did),
                },
            );
            i += 1;
        }
        CommunityRoster {
            summary: summarize_community(c),
            members,
            grants: c.grants,
            stronghold_did: copy_text(&c.stronghold_did),
        }
    }

    /// `s` tells of the peer `did` with the record `r`.
    pub open spec fn peer_told(s: PeerSummary, did: Seq<char>, r: PeerRecord) -> bool {
        &&& s.did@ == did
        &&& same_text(s.pet_name, r.pet_name)
        &&& s.level@ == r.level@
        &&& s.score == r.score
        &&& s.is_blacklisted == r.is_blacklisted
    }

    /// `list` tells of all known peers.
    pub open spec fn is_peer_list(&self, list: Seq<PeerSummary>) -> bool {
        &&& list.len() == self.peers@.len()
        &&& forall|i: int|
            0 <= i < list.len() ==> {
                &&& self.peers@.dom().contains((#[trigger] list[i]).did@)
                &&& Self::peer_told(list[i], list[i].did@, self.peers@[list[i].did@])
            }
        &&& forall|i: int, j: int|
            0 <= i < j < list.len() ==> (#[trigger] list[i]).did@ != (#[trigger] list[j]).did@
    }

    /// All known peers.
    pub fn list_peers(&self) -> (peers: Vec<PeerSummary>)
        requires
            self.wf(),
        ensures
            self.is_peer_list(peers@),
    {
        let n: usize = self.peers.len();
        let mut peers: Vec<PeerSummary> = Vec::new();
        let mut i: usize = 0;
        proof {
            self.peers.lemma_entries();
        }
        while i < n
            invariant
                self.wf(),
                n == self.peers.keys().len(),
                n == self.peers.values().len(),
                i <= n,
                peers@.len() == i,
                forall|j: int|
                    0 <= j < i ==> Self::peer_told(
                        #[trigger] peers@[j],
                        self.peers.keys()[j],
                        self.peers.values()[j],
                    ),
            decreases n - i,
        {
            let record = self.peers.value_at(i);
            peers.push(
                PeerSummary {
                    did: self.peers.key_at(i).clone(),
                    pet_name: copy_text(&record.pet_name),
                    level: record.level.clone(),
                    score: record.score,
                    is_blacklisted: record.is_blacklisted,
                },
            );
            i += 1;
        }
        proof {
            self.peers.lemma_entries();
            assert forall|j: int| 0 <= j < peers@.len() implies {
                &&& self.peers@.dom().contains((#[trigger] peers@[j]).did@)
                &&& Self::peer_told(peers@[j], peers@[j].did@, self.peers@[peers@[j].did@])
            } by {
                assert(Self::peer_told(peers@[j], self.peers.keys()[j], self.peers.values()[j]));
                assert(self.peers@.dom().contains(self.peers.keys()[j]));
            }
            assert forall|a: int, b: int| 0 <= a < b < peers@.len() implies (
            #[trigger] peers@[a]).did@ != (#[trigger] peers@[b]).did@ by {
                assert(Self::peer_told(peers@[a], self.peers.keys()[a], self.peers.values()[a]));
                assert(Self::peer_told(peers@[b], self.peers.keys()[b], self.peers.values()[b]));
                assert(self.peers.keys()[a] != self.peers.keys()[b]);
            }
        }
        peers
    }

    /// `list` tells of all communities.
    pub open spec fn is_community_list(&self, list: Seq<CommunitySummary>) -> bool {
        &&& list.len() == self.communities@.len()
        &&& forall|i: int|
            0 <= i < list.len() ==> summarizes(#[trigger] list[i], self.communities@[i])
    }

    /// All communities, in the order in which they are held.
    pub fn list_communities(&self) -> (list: Vec<CommunitySummary>)
        ensures
            self.is_community_list(list@),
    {
        let mut list: Vec<CommunitySummary> = Vec::new();
        let mut i: usize = 0;
        while i < self.communities.len()
            invariant
                i <= self.communities@.len(),
                list@.len() == i,
                forall|j: int|
                    0 <= j < i ==> summarizes(#[trigger] list@[j], self.communities@[j]),
            decreases self.communities@.len() - i,
        {
            list.push(summarize_community(&self.communities[i]));
            i += 1;
        }
        list
    }

    /// The communities after an import: the community takes the place of one
    /// with the same fingerprint, or comes last.
    pub open spec fn imported(before: Seq<Community>, c: Community) -> Seq<Community> {
        let p = find(before, c.fingerprint@);
        if p < before.len() {
            before.update(p, c)
        } else {
            before.push(c)
        }
    }

    fn import_community(&mut self, community: Community, verified: Result<(), String>) -> (action:
        TrustAction)
        requires
            old(self).wf(),
        ensures
            final(self).wf(),
            Self::import_effect(*old(self), *final(self), community, verified, action),
    {
        match verified {
            Err(m) => TrustAction::ImportFailed(m),
            Ok(()) => {
                let id = community.fingerprint;
                let ghost before = self.communities@;
                let mut first: Vec<ProjectedCommunity> = Vec::new();
                first.push(project(&community));
                let projection = self.project_from(first);
                proof {
                    lemma_find(before, id@);
                    assert(projection@.subrange(0, 1)[0] == projection@[0]);
                }
                let p: usize = self.position(&id);
                if p < self.communities.len() {
                    self.communities.set(p, community);
                } else {
                    self.communities.push(community);
                }
                TrustAction::Imported { id, projection }
            },
        }
    }

    /// What an import does. The projection gets the new community first, then
    /// all that were held before.
    pub open spec fn import_effect(
        before: Self,
        after: Self,
        community: Community,
        verified: Result<(), String>,
        action: TrustAction,
    ) -> bool {
        match verified {
            Err(m) => after == before && action == TrustAction::ImportFailed(m),
            Ok(()) => {
                &&& after.peers == before.peers
                &&& after.communities@ == Self::imported(before.communities@, community)
                &&& action matches TrustAction::Imported { id, projection } && {
                    &&& id@ == community.fingerprint@
                    &&& projection@.len() == 1 + before.communities@.len()
                    &&& projects(projection@[0], community)
                    &&& projects_all(
                        projection@.subrange(1, projection@.len() as int),
                        before.communities@,
                    )
                }
            },
        }
    }

    fn dissolve_community(&mut self, community_id: [u8; 32]) -> (action: TrustAction)
        requires
            old(self).wf(),
        ensures
            final(self).wf(),
            Self::dissolve_effect(*old(self), *final(self), community_id@, action),
    {
        let ghost before = self.communities@;
        proof {
            lemma_find(before, community_id@);
        }
        let p: usize = self.position(&community_id);
        if p < self.communities.len() {
            self.communities.remove(p);
            let projection = self.project_from(Vec::new());
            assert(projection@.subrange(0, projection@.len() as int) =~= projection@);
            proof {
                assert forall|i: int, j: int| 0 <= i < j < self.communities@.len() implies (
                #[trigger] self.communities@[i]).fingerprint@ != (
                #[trigger] self.communities@[j]).fingerprint@ by {
                    let i2 = if i < p { i } else { i + 1 };
                    let j2 = if j < p { j } else { j + 1 };
                    assert(self.communities@[i] == before[i2]);
                    assert(self.communities@[j] == before[j2]);
                }
            }
            TrustAction::Dissolved { id: community_id, projection }
        } else {
            TrustAction::NotFound
        }
    }

    /// What dissolving a community does. The projection gets those that are left.
    pub open spec fn dissolve_effect(
        before: Self,
        after: Self,
        id: Seq<u8>,
        action: TrustAction,
    ) -> bool {
        if before.has_community(id) {
            &&& after.peers == before.peers
            &&& after.communities@ == before.communities@.remove(find(before.communities@, id))
            &&& action matches TrustAction::Dissolved { id: i, projection } && i@ == id
                && projects_all(projection@, after.communities@)
        } else {
            after == before && action == TrustAction::NotFound
        }
    }

    /// A community at a known position is the one held under its fingerprint.
    proof fn lemma_held_at(self, i: int)
        requires
            self.wf(),
            0 <= i < self.communities@.len(),
        ensures
            self.held(self.communities@[i].fingerprint@) == Some(self.communities@[i]),
    {
        let id = self.communities@[i].fingerprint@;
        lemma_find(self.communities@, id);
        let p = find(self.communities@, id);
        if p < i {
            assert(self.communities@[p].fingerprint@ != self.communities@[i].fingerprint@);
        }
        assert(p == i);
    }

    /// A dissolved community is gone, and no other is touched.
    pub proof fn law_dissolved_is_gone(
        before: Self,
        after: Self,
        id: Seq<u8>,
        other: Seq<u8>,
        action: TrustAction,
    )
        requires
            before.wf(),
            after.wf(),
            Self::dissolve_effect(before, after, id, action),
        ensures
            after.held(id) is None,
            other != id ==> after.held(other) == before.held(other),
    {
        lemma_find(before.communities@, id);
        lemma_find(after.communities@, id);
        lemma_find(before.communities@, other);
        lemma_find(after.communities@, other);
        if before.has_community(id) {
            let p = find(before.communities@, id);
            if after.has_community(id) {
                let q = find(after.communities@, id);
                let q2 = if q < p { q } else { q + 1 };
                assert(after.communities@[q] == before.communities@[q2]);
                assert(before.communities@[q2].fingerprint@ == before.communities@[p].fingerprint@);
            }
            if other != id {
                if before.has_community(other) {
                    let q = find(before.communities@, other);
                    let q2 = if q < p { q } else { q - 1 };
                    assert(after.communities@[q2] == before.communities@[q]);
                    after.lemma_held_at(q2);
                }
                if after.has_community(other) {
                    let q = find(after.communities@, other);
                    let q2 = if q < p { q } else { q + 1 };
                    assert(after.communities@[q] == before.communities@[q2]);
                    before.lemma_held_at(q2);
                }
            }
        }
    }

    /// A community that was imported is held under its own fingerprint, in place of
    /// an earlier one of the same, and no other is touched.
    pub proof fn law_imported_is_held(
        before: Self,
        after: Self,
        community: Community,
        other: Seq<u8>,
    )
        requires
            before.wf(),
            after.wf(),
            after.communities@ == Self::imported(before.communities@, community),
        ensures
            after.held(community.fingerprint@) == Some(community),
            other != community.fingerprint@ ==> after.held(other) == before.held(other),
    {
        let id = community.fingerprint@;
        lemma_find(before.communities@, id);
        let p = find(before.communities@, id);
        assert(after.communities@[p] == community);
        after.lemma_held_at(p);
        if other != id {
            lemma_find(before.communities@, other);
            lemma_find(after.communities@, other);
            if before.has_community(other) {
                let q = find(before.communities@, other);
                assert(after.communities@[q] == before.communities@[q]);
                after.lemma_held_at(q);
            }
            if after.has_community(other) {
                let q = find(after.communities@, other);
                assert(q != p);
                assert(after.communities@[q] == before.communities@[q]);
                before.lemma_held_at(q);
            }
        }
    }

    /// A sound community is there after its import and all others of another
    /// fingerprint still are; the projection is given all of them, every member by
    /// name, the new one first. One that was refused changes nothing.
    pub proof fn law_imports_reach_the_projection(
        before: Self,
        after: Self,
        community: Community,
        verified: Result<(), String>,
        action: TrustAction,
        i: int,
    )
        requires
            before.wf(),
            Self::command_effect(
                before,
                after,
                TrustCommand::ImportCommunity { community, verified },
                action,
            ),
            0 <= i < before.communities@.len(),
        ensures
            verified is Err ==> after == before && action is ImportFailed,
            verified is Ok ==> {
                &&& after.communities@.contains(community)
                &&& before.communities@[i].fingerprint@ != community.fingerprint@
                    ==> after.communities@.contains(before.communities@[i])
                &&& before.communities@.len() <= after.communities@.len()
                    <= before.communities@.len() + 1
                &&& after.peers == before.peers
                &&& action matches TrustAction::Imported { id, projection } && {
                    &&& id@ == community.fingerprint@
                    &&& projection@[0].baseline_trust == community.baseline_trust
                    &&& projection@[0].members@.len() == community.members@.len()
                    &&& forall|m: int|
                        0 <= m < community.members@.len() ==> (
                        #[trigger] projection@[0].members@[m])@ == community.members@[m].did@
                    &&& projection@[i + 1].baseline_trust == before.communities@[i].baseline_trust
                    &&& projection@[i + 1].members@.len() == before.communities@[i].members@.len()
                    &&& forall|m: int|
                        0 <= m < before.communities@[i].members@.len() ==> (
                        #[trigger] projection@[i + 1].members@[m])@
                            == before.communities@[i].members@[m].did@
                }
            },
    {
        lemma_find(before.communities@, community.fingerprint@);
        if verified is Ok {
            let p = find(before.communities@, community.fingerprint@);
            assert(after.communities@[p] == community);
            if before.communities@[i].fingerprint@ != community.fingerprint@ {
                assert(after.communities@[i] == before.communities@[i]);
            }
            match action {
                TrustAction::Imported { id: _, projection } => {
                    let tail = projection@.subrange(1, projection@.len() as int);
                    assert(projects(tail[i], before.communities@[i]));
                    assert(tail[i] == projection@[i + 1]);
                    lemma_projection_names_members(projection@[0], community);
                    lemma_projection_names_members(projection@[i + 1], before.communities@[i]);
                },
                _ => {},
            }
        }
    }

    /// A dissolved community is in no list afterwards, and every other one is in both.
    pub proof fn law_dissolving_leaves_the_others(
        before: Self,
        after: Self,
        community_id: [u8; 32],
        action: TrustAction,
        i: int,
    )
        requires
            before.wf(),
            Self::command_effect(
                before,
                after,
                TrustCommand::DissolveCommunity { community_id },
                action,
            ),
            0 <= i < before.communities@.len(),
        ensures
            before.communities@[i].fingerprint@ == community_id@ ==> action is Dissolved
                && after.communities@.len() == before.communities@.len() - 1,
            before.communities@[i].fingerprint@ != community_id@ ==> after.communities@.contains(
                before.communities@[i],
            ),
            forall|j: int|
                0 <= j < after.communities@.len() ==> (
                #[trigger] after.communities@[j]).fingerprint@ != community_id@,
            action matches TrustAction::Dissolved { id, projection } ==> projection@.len()
                == after.communities@.len() && id@ == community_id@,
            action is NotFound ==> after == before,
            action is Dissolved || action is NotFound,
    {
        lemma_find(before.communities@, community_id@);
        let p = find(before.communities@, community_id@);
        if p < before.communities@.len() {
            if i < p {
                assert(after.communities@[i] == before.communities@[i]);
            } else if i > p {
                assert(after.communities@[i - 1] == before.communities@[i]);
                assert(before.communities@[p].fingerprint@ != before.communities@[i].fingerprint@);
            }
            assert forall|j: int| 0 <= j < after.communities@.len() implies (
            #[trigger] after.communities@[j]).fingerprint@ != community_id@ by {
                if j < p {
                    assert(after.communities@[j] == before.communities@[j]);
                } else {
                    assert(after.communities@[j] == before.communities@[j + 1]);
                    assert(before.communities@[p].fingerprint@ != before.communities@[j
                        + 1].fingerprint@);
                }
            }
        } else {
            assert(after.communities@[i].fingerprint@ != community_id@);
        }
    }

    /// Every known peer is listed, with all that is known of it, and nobody else is.
    pub proof fn law_every_peer_is_listed(
        before: Self,
        after: Self,
        list: Vec<PeerSummary>,
        did: Seq<char>,
    )
        requires
            before.wf(),
            Self::command_effect(
                before,
                after,
                TrustCommand::ListPeers,
                TrustAction::Peers(list),
            ),
        ensures
            before.peers@.dom().contains(did) <==> exists|i: int|
                0 <= i < list@.len() && (#[trigger] list@[i]).did@ == did,
            forall|i: int|
                0 <= i < list@.len() ==> {
                    let record = before.peers@[(#[trigger] list@[i]).did@];
                    &&& list@[i].level@ == record.level@
                    &&& list@[i].score == record.score
                    &&& list@[i].is_blacklisted == record.is_blacklisted
                    &&& list@[i].pet_name is Some <==> record.pet_name is Some
                    &&& record.pet_name is Some ==> list@[i].pet_name->0@ == record.pet_name->0@
                },
            after == before,
    {
        let dids = list@.map_values(|s: PeerSummary| s.did@);
        let known = before.peers@.dom();
        before.peers.lemma_entries();
        assert(dids.no_duplicates()) by {
            assert forall|i: int, j: int|
                0 <= i < dids.len() && 0 <= j < dids.len() && i != j implies dids[i] != dids[j] by {
                assert(dids[i] == list@[i].did@);
                assert(dids[j] == list@[j].did@);
                if i < j {
                    assert(list@[i].did@ != list@[j].did@);
                } else {
                    assert(list@[j].did@ != list@[i].did@);
                }
            }
        }
        dids.unique_seq_to_set();
        assert(dids.to_set().subset_of(known)) by {
            assert forall|d: Seq<char>| dids.to_set().contains(d) implies known.contains(d) by {
                let i = dids.index_of(d);
                assert(known.contains(list@[i].did@));
            }
        }
        vstd::set_lib::lemma_subset_equality(dids.to_set(), known);
        if known.contains(did) {
            assert(dids.to_set().contains(did));
            let i = dids.index_of(did);
            assert(list@[i].did@ == did);
        }
    }

    /// A known peer keeps its pet name when its level is set, and is called "peer"
    /// only where it has none; an unknown one is registered.
    pub proof fn law_pet_names_survive_a_new_level(
        before: Self,
        after: Self,
        did: String,
        action: TrustAction,
    )
        requires
            Self::command_effect(before, after, TrustCommand::SetTrustLevel { did }, action),
        ensures
            action is SetPeer <==> before.peers@.dom().contains(did@),
            action is RegisterPeer <==> !before.peers@.dom().contains(did@),
            action matches TrustAction::SetPeer { pet_name } ==> pet_name@ == if before.peers@[
                did@
            ].pet_name is Some {
                before.peers@[did@].pet_name->0@
            } else {
                "peer"@
            },
            after == before,
    {
    }

    /// The roster of a community names all its members, with their vouches as far as
    /// sixteen bits can hold them and the pet names that this node has for them.
    pub proof fn law_rosters_name_every_member(
        before: Self,
        after: Self,
        i: int,
        action: TrustAction,
        m: int,
    )
        requires
            before.wf(),
            0 <= i < before.communities@.len(),
            0 <= m < before.communities@[i].members@.len(),
            Self::command_effect(
                before,
                after,
                TrustCommand::GetCommunity { community_id: before.communities@[i].fingerprint },
                action,
            ),
        ensures
            action matches TrustAction::Roster(Some(r)) && {
                let c = before.communities@[i];
                let member = c.members@[m];
                &&& r.summary.name@ == c.name@
                &&& r.summary.id@ == c.fingerprint@
                &&& r.summary.expires_at == c.expires_at
                &&& r.summary.quorum == c.quorum
                &&& r.summary.member_count == vstd::math::min(c.members@.len() as int, 65535)
                &&& r.grants == c.grants
                &&& r.stronghold_did is Some <==> c.stronghold_did is Some
                &&& c.stronghold_did is Some ==> r.stronghold_did->0@ == c.stronghold_did->0@
                &&& r.members@.len() == c.members@.len()
                &&& r.members@[m].did@ == member.did@
                &&& r.members@[m].joined_at == member.joined_at
                &&& r.members@[m].vouch_count == vstd::math::min(member.vouches as int, 65535)
                &&& r.members@[m].pet_name is Some <==> before.peers@.dom().contains(member.did@)
                    && before.peers@[member.did@].pet_name is Some
                &&& r.members@[m].pet_name is Some ==> r.members@[m].pet_name->0@
                    == before.peers@[member.did@].pet_name->0@
            },
            after == before,
    {
        before.lemma_held_at(i);
        match action {
            TrustAction::Roster(Some(r)) => {
                assert(before.member_of(r.members@[m], before.communities@[i].members@[m]));
            },
            _ => {},
        }
    }

    /// Every community is listed, in its order, and under its own name and limits.
    pub proof fn law_every_community_is_listed(
        before: Self,
        after: Self,
        list: Vec<CommunitySummary>,
        i: int,
    )
        requires
            Self::command_effect(
                before,
                after,
                TrustCommand::ListCommunities,
                TrustAction::Communities(list),
            ),
            0 <= i < before.communities@.len(),
        ensures
            list@.len() == before.communities@.len(),
            list@[i].id@ == before.communities@[i].fingerprint@,
            list@[i].name@ == before.communities@[i].name@,
            list@[i].member_count == vstd::math::min(
                before.communities@[i].members@.len() as int,
                65535,
            ),
            list@[i].expires_at == before.communities@[i].expires_at,
            list@[i].quorum == before.communities@[i].quorum,
            after == before,
    {
        assert(summarizes(list@[i], before.communities@[i]));
    }

    /// What each command does to the state and what is done about it.
    pub open spec fn command_effect(
        before: Self,
        after: Self,
        command: TrustCommand,
        action: TrustAction,
    ) -> bool {
        match command {
            TrustCommand::RecordOffense
            | TrustCommand::CheckTrust
            | TrustCommand::IsBlacklisted
            | TrustCommand::AssignPetName
            | TrustCommand::RemovePeer => after == before && action == TrustAction::AskRegistry,
            TrustCommand::ListPeers => {
                &&& after == before
                &&& action matches TrustAction::Peers(list) && before.is_peer_list(list@)
            },
            TrustCommand::SetTrustLevel { did } => {
                &&& after == before
                &&& if before.peers@.dom().contains(did@) {
                    action matches TrustAction::SetPeer { pet_name } && pet_name@ == match before.alias(
                        did@,
                    ) {
                        Some(n) => n,
                        None => "peer"@,
                    }
                } else {
                    action == TrustAction::RegisterPeer
                }
            },
            TrustCommand::ImportCommunity { community, verified } => Self::import_effect(
                before,
                after,
                community,
                verified,
                action,
            ),
            TrustCommand::DissolveCommunity { community_id } => Self::dissolve_effect(
                before,
                after,
                community_id@,
                action,
            ),
            TrustCommand::ListCommunities => {
                &&& after == before
                &&& action matches TrustAction::Communities(list) && before.is_community_list(list@)
            },
            TrustCommand::GetCommunity { community_id } => {
                &&& after == before
                &&& if before.has_community(community_id@) {
                    action matches TrustAction::Roster(Some(r)) && before.roster_of(
                        r,
                        before.communities@[find(before.communities@, community_id@)],
                    )
                } else {
                    action == TrustAction::Roster(None)
                }
            },
        }
    }

    /// Decides on a command.
    pub fn handle_command(&mut self, command: TrustCommand) -> (action: TrustAction)
        requires
            old(self).wf(),
        ensures
            final(self).wf(),
            Self::command_effect(*old(self), *final(self), command, action),
    {
        match command {
            TrustCommand::RecordOffense => TrustAction::AskRegistry,
            TrustCommand::CheckTrust => TrustAction::AskRegistry,
            TrustCommand::IsBlacklisted => TrustAction::AskRegistry,
            TrustCommand::AssignPetName => TrustAction::AskRegistry,
            TrustCommand::RemovePeer => TrustAction::AskRegistry,
            TrustCommand::ListPeers => TrustAction::Peers(self.list_peers()),
            TrustCommand::SetTrustLevel { did } => {
                if self.peers.contains(&did) {
                    // An existing pet name survives a change of level.
                    let pet_name = match self.alias_of(&did) {
                        Some(name) => name,
                        None => "peer".to_owned(),
                    };
                    TrustAction::SetPeer { pet_name }
                } else {
                    TrustAction::RegisterPeer
                }
            },
            TrustCommand::ImportCommunity { community, verified } => self.import_community(
                community,
                verified,
            ),
            TrustCommand::DissolveCommunity { community_id } => self.dissolve_community(
                community_id,
            ),
            TrustCommand::ListCommunities => TrustAction::Communities(self.list_communities()),
            TrustCommand::GetCommunity { community_id } => {
                let p: usize = self.position(&community_id);
                if p < self.communities.len() {
                    TrustAction::Roster(Some(self.project_roster(&self.communities[p])))
                } else {
                    TrustAction::Roster(None)
                }
            },
        }
    }
}

} // verus!
