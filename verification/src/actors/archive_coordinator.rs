//! Custody: each recording is pushed once to every custody peer, and the
//! receipts that come back tell who holds it, and until when.
use vstd::prelude::*;
use crate::config::ArchivalPeer;
use crate::text_map::TextMap;

verus! {

/// A directed push.
#[derive(Debug)]
pub struct Push {
    /// The peer that it goes to.
    pub target: String,
    /// The identity that an export grant is sealed to; without one the peer only
    /// holds what it cannot read.
    pub grant_to: Option<String>,
}

/// A receipt whose signature was checked.
#[derive(Debug)]
pub struct CustodyReceipt {
    pub recording_id: String,
    pub replica_did: String,
    pub held_until: u64,
}

/// The state of the archive coordinator.
pub struct ArchiveCoordinator {
    /// The recordings pushed in this session.
    pub archived_to_strongholds: TextMap<()>,
    /// Per recording, the replicas and the deadline that each committed to.
    pub custody: TextMap<TextMap<u64>>,
}

/// A push as plain values: target, and whom the grant is sealed to.
pub open spec fn push_model(p: Push) -> (Seq<char>, Option<Seq<char>>) {
    (
        p.target@,
        match p.grant_to {
            Some(did) => Some(did@),
            None => None,
        },
    )
}

/// The push that goes to a peer; none where its address names nobody.
pub open spec fn push_to(peer: ArchivalPeer) -> Option<(Seq<char>, Option<Seq<char>>)> {
    match crate::config::peer_id_in(peer.address@) {
        None => None,
        Some(id) => Some(
            (
                id,
                match peer.stronghold_did {
                    Some(did) => Some(did@),
                    None => None,
                },
            ),
        ),
    }
}

/// The pushes that go to the peers, in their order.
pub open spec fn pushes_to(peers: Seq<ArchivalPeer>) -> Seq<(Seq<char>, Option<Seq<char>>)>
    decreases peers.len(),
{
    if peers.len() == 0 {
        Seq::empty()
    } else {
        let front = pushes_to(peers.drop_last());
        match push_to(peers.last()) {
            Some(p) => front.push(p),
            None => front,
        }
    }
}

/// With a coherent configuration every custody peer gets its push.
pub proof fn law_coherent_peers_are_all_pushed_to(peers: Seq<ArchivalPeer>)
    requires
        forall|i: int|
            0 <= i < peers.len() ==> crate::config::peer_id_in(
                (#[trigger] peers[i]).address@,
            ) is Some,
    ensures
        pushes_to(peers).len() == peers.len(),
        forall|i: int|
            0 <= i < peers.len() ==> Some(#[trigger] pushes_to(peers)[i]) == push_to(peers[i]),
    decreases peers.len(),
{
    if peers.len() > 0 {
        law_coherent_peers_are_all_pushed_to(peers.drop_last());
        assert(crate::config::peer_id_in(peers[peers.len() - 1].address@) is Some);
    }
}

proof fn lemma_pushes_reach(peers: Seq<ArchivalPeer>, i: int)
    requires
        0 <= i < peers.len(),
    ensures
        push_to(peers[i]) is Some ==> pushes_to(peers).contains(push_to(peers[i])->0),
        pushes_to(peers).len() <= peers.len(),
    decreases peers.len(),
{
    let front = peers.drop_last();
    let before = pushes_to(front);
    if i == peers.len() - 1 {
        if front.len() > 0 {
            lemma_pushes_reach(front, 0);
        }
        if push_to(peers[i]) is Some {
            assert(pushes_to(peers)[before.len() as int] == push_to(peers[i])->0);
        }
    } else {
        lemma_pushes_reach(front, i);
        if push_to(peers[i]) is Some {
            let k = before.index_of(push_to(peers[i])->0);
            assert(pushes_to(peers)[k] == before[k]);
        }
    }
}

impl ArchiveCoordinator {
    pub open spec fn wf(&self) -> bool {
        &&& self.archived_to_strongholds.wf()
        &&& self.custody.wf()
        &&& forall|r: Seq<char>| #[trigger]
            self.custody@.dom().contains(r) ==> self.custody@[r].wf()
    }

    pub fn new() -> (coordinator: Self)
        ensures
            coordinator.wf(),
            coordinator.archived_to_strongholds@ == Map::<Seq<char>, ()>::empty(),
            coordinator.custody@ == Map::<Seq<char>, TextMap<u64>>::empty(),
    {
        ArchiveCoordinator { archived_to_strongholds: TextMap::new(), custody: TextMap::new() }
    }

    /// What the decision to stage a recording does.
    pub open spec fn staging(
        before: Self,
        after: Self,
        recording_id: Seq<char>,
        peers: nat,
        stage: bool,
    ) -> bool {
        &&& after.custody == before.custody
        &&& stage == (peers > 0 && !before.archived_to_strongholds@.dom().contains(recording_id))
        &&& after.archived_to_strongholds@ == if peers > 0 {
            before.archived_to_strongholds@.insert(recording_id, ())
        } else {
            before.archived_to_strongholds@
        }
    }

    /// With somebody to push to, a recording is staged the first time and not again
    /// in the session, and staging one keeps no other from it; with nobody nothing
    /// is staged or taken note of.
    pub proof fn law_recordings_are_staged_once(
        before: Self,
        between: Self,
        after: Self,
        first: Seq<char>,
        second: Seq<char>,
        peers: nat,
        first_staged: bool,
        second_staged: bool,
    )
        requires
            Self::staging(before, between, first, peers, first_staged),
            Self::staging(between, after, second, peers, second_staged),
            !before.archived_to_strongholds@.dom().contains(first),
            !before.archived_to_strongholds@.dom().contains(second),
        ensures
            first_staged <==> peers > 0,
            second_staged <==> peers > 0 && second != first,
            peers == 0 ==> after.archived_to_strongholds@ == before.archived_to_strongholds@,
            after.custody == before.custody,
    {
    }

    /// Decides whether a recording is staged now: there is somebody to push it to,
    /// and it was not staged before in this session.
    pub fn begin_staging(&mut self, recording_id: &String, peers: &Vec<ArchivalPeer>) -> (stage:
        bool)
        requires
            old(self).wf(),
        ensures
            final(self).wf(),
            Self::staging(*old(self), *final(self), recording_id@, peers@.len(), stage),
    {
        if peers.len() == 0 {
            return false;
        }
        match self.archived_to_strongholds.insert(recording_id.clone(), ()) {
            Some(_) => false,
            None => true,
        }
    }

    /// `list` are the pushes of a recording of so many envelopes.
    pub open spec fn are_pushes(
        peers: Seq<ArchivalPeer>,
        envelope_count: usize,
        list: Seq<Push>,
    ) -> bool {
        list.map_values(|p: Push| push_model(p)) == if envelope_count == 0 {
            Seq::empty()
        } else {
            pushes_to(peers)
        }
    }

    /// A recording that storage has goes to every custody peer whose address names
    /// one, with a grant sealed to the peer's identity where it has one; one that
    /// storage does not have goes nowhere.
    pub proof fn law_every_custody_peer_gets_the_recording(
        peers: Seq<ArchivalPeer>,
        envelope_count: usize,
        list: Seq<Push>,
        i: int,
    )
        requires
            Self::are_pushes(peers, envelope_count, list),
            0 <= i < peers.len(),
        ensures
            envelope_count == 0 ==> list.len() == 0,
            list.len() <= peers.len(),
            envelope_count > 0 && crate::config::peer_id_in(peers[i].address@) is Some ==> exists|
                k: int,
            |
                0 <= k < list.len() && (#[trigger] list[k]).target@ == crate::config::peer_id_in(
                    peers[i].address@,
                )->0 && (list[k].grant_to is Some <==> peers[i].stronghold_did is Some) && (
                list[k].grant_to is Some ==> list[k].grant_to->0@ == peers[i].stronghold_did->0@),
            (forall|j: int|
                0 <= j < peers.len() ==> crate::config::peer_id_in(
                    (#[trigger] peers[j]).address@,
                ) is Some) && envelope_count > 0 ==> list.len() == peers.len(),
    {
        let model = list.map_values(|p: Push| push_model(p));
        assert(model.len() == list.len());
        lemma_pushes_reach(peers, i);
        if envelope_count > 0 && crate::config::peer_id_in(peers[i].address@) is Some {
            let k = pushes_to(peers).index_of(push_to(peers[i])->0);
            assert(model[k] == push_model(list[k]));
            assert(list[k].target@ == crate::config::peer_id_in(peers[i].address@)->0);
        }
        if forall|j: int|
            0 <= j < peers.len() ==> crate::config::peer_id_in(
                (#[trigger] peers[j]).address@,
            ) is Some {
            law_coherent_peers_are_all_pushed_to(peers);
        }
    }

    /// The pushes of a recording, given how many of its envelopes storage has:
    /// nothing is pushed where there are none.
    pub fn pushes(peers: &Vec<ArchivalPeer>, envelope_count: usize) -> (list: Vec<Push>)
        ensures
            Self::are_pushes(peers@, envelope_count, list@),
    {
        let mut list: Vec<Push> = Vec::new();
        let ghost f = |p: Push| push_model(p);
        assert(list@.map_values(f) =~= Seq::<(Seq<char>, Option<Seq<char>>)>::empty());
        if envelope_count == 0 {
            return list;
        }
        let mut i: usize = 0;
        assert(peers@.subrange(0, 0) =~= Seq::<ArchivalPeer>::empty());
        while i < peers.len()
            invariant
                i <= peers@.len(),
                f == (|p: Push| push_model(p)),
                list@.map_values(f) == pushes_to(peers@.subrange(0, i as int)),
            decreases peers@.len() - i,
        {
            let ghost before = list@;
            proof {
                let longer = peers@.subrange(0, i + 1);
                assert(longer.drop_last() =~= peers@.subrange(0, i as int));
                assert(longer.last() == peers@[i as int]);
            }
            match peers[i].peer_id() {
                Some(target) => {
                    let grant_to = match &peers[i].stronghold_did {
                        Some(did) => Some(did.clone()),
                        None => None,
                    };
                    let push = Push { target, grant_to };
                    assert(Some(push_model(push)) == push_to(peers@[i as int]));
                    list.push(push);
                    assert(list@.map_values(f) =~= before.map_values(f).push(push_model(push)));
                },
                None => {},
            }
            i += 1;
        }
        assert(peers@.subrange(0, i as int) =~= peers@);
        list
    }

    /// Who holds a recording, and until when.
    pub open spec fn holders(&self, recording_id: Seq<char>) -> Map<Seq<char>, u64> {
        if self.custody@.dom().contains(recording_id) {
            self.custody@[recording_id]@
        } else {
            Map::empty()
        }
    }

    /// What a receipt does.
    pub open spec fn receipt_effect(
        before: Self,
        after: Self,
        verified: bool,
        receipt: CustodyReceipt,
    ) -> bool {
        &&& after.archived_to_strongholds == before.archived_to_strongholds
        &&& forall|r: Seq<char>| #[trigger]
            after.holders(r) == if verified && r == receipt.recording_id@ {
                before.holders(r).insert(receipt.replica_did@, receipt.held_until)
            } else {
                before.holders(r)
            }
    }

    /// After a sound receipt the replica is known to hold the recording until the
    /// time it gave, whatever it said before; every other replica and recording is
    /// as it was, and a receipt that does not verify changes nothing.
    pub proof fn law_receipts_are_kept(
        before: Self,
        after: Self,
        verified: bool,
        receipt: CustodyReceipt,
        r: Seq<char>,
        replica: Seq<char>,
    )
        requires
            Self::receipt_effect(before, after, verified, receipt),
        ensures
            ({
                let held = before.custody@;
                let now = after.custody@;
                let this = verified && r == receipt.recording_id@ && replica
                    == receipt.replica_did@;
                &&& this ==> now.dom().contains(r) && now[r]@.dom().contains(replica)
                    && now[r]@[replica] == receipt.held_until
                &&& !this ==> {
                    &&& now.dom().contains(r) && now[r]@.dom().contains(replica)
                        <==> held.dom().contains(r) && held[r]@.dom().contains(replica)
                    &&& held.dom().contains(r) && held[r]@.dom().contains(replica)
                        ==> now[r]@[replica] == held[r]@[replica]
                }
            }),
            after.archived_to_strongholds == before.archived_to_strongholds,
    {
        assert(after.holders(r) == if verified && r == receipt.recording_id@ {
            before.holders(r).insert(receipt.replica_did@, receipt.held_until)
        } else {
            before.holders(r)
        });
        assert(after.holders(r).dom().contains(replica) <==> after.custody@.dom().contains(r)
            && after.custody@[r]@.dom().contains(replica));
        assert(before.holders(r).dom().contains(replica) <==> before.custody@.dom().contains(r)
            && before.custody@[r]@.dom().contains(replica));
    }

    /// Records a receipt; one whose signature does not verify is ignored. A newer
    /// receipt of the same replica replaces the older.
    pub fn record_receipt(&mut self, verified: bool, receipt: CustodyReceipt)
        requires
            old(self).wf(),
        ensures
            final(self).wf(),
            Self::receipt_effect(*old(self), *final(self), verified, receipt),
    {
        if !verified {
            return;
        }
        let CustodyReceipt { recording_id, replica_did, held_until } = receipt;
        let mut replicas = match self.custody.remove(&recording_id) {
            Some(map) => map,
            None => TextMap::new(),
        };
        replicas.insert(replica_did, held_until);
        self.custody.insert(recording_id, replicas);
        assert forall|r: Seq<char>| #[trigger] self.holders(r) == if r == recording_id@ {
            old(self).holders(r).insert(replica_did@, held_until)
        } else {
            old(self).holders(r)
        } by {
            assert(self.custody@.dom().contains(r) <==> r == recording_id@ || old(
                self,
            ).custody@.dom().contains(r));
        }
    }
}

} // verus!
