//! The eclipse router: which peers are let in, how long they have been known,
//! and what is done when the mesh looks cut off.
use vstd::prelude::*;
use crate::evidence::Offense;
use crate::actors::egress::EgressCommand;
use crate::actors::mesh_policy;
use crate::aged_map::{make_room, Aged};
use crate::power::PowerState;
use crate::text;
use crate::text_map::TextMap;

verus! {

/// The span in which discoveries are counted, in nanoseconds.
pub const DISCOVERY_WINDOW_NS: u64 = 1000000000;

/// How many bootstrap peers a re-bootstrap dials.
pub const REBOOTSTRAP_PEERS: usize = 3;

/// Outcome of a request to be admitted.
#[derive(Debug)]
pub struct AdmitOutcome {
    pub admitted: bool,
    pub evicted: Option<String>,
    /// This peer was not admitted before in the life of the process.
    pub was_first_seen: bool,
}

/// What the topology gate decided.
#[derive(Debug)]
pub enum GateVerdict {
    Admitted { evicted: Option<String> },
    Rejected,
}

/// How likely it is that the node sees a mesh of an adversary's making.
#[derive(Debug, Clone, Copy, PartialEq, Eq, Structural)]
pub enum EclipseRisk {
    Low,
    Elevated,
    Critical,
}

/// What is done about a risk.
#[derive(Debug)]
pub struct EclipseReaction {
    /// The pressure to inject, if any.
    pub impulse: Option<u32>,
    /// The offense to record, and against whom.
    pub offense: Option<(String, Offense)>,
    /// The peers to dial again.
    pub rebootstrap: Option<Vec<String>>,
}

/// The owned state of the router.
pub struct EclipseRouter {
    pub peer_discovery_count: u32,
    /// When the current window of discoveries began.
    pub peer_discovery_window_ns: u64,
    /// When each peer was first seen, in seconds. A reconnect changes nothing.
    pub peer_first_seen: TextMap<Aged<()>>,
    /// The peers that revocations were replayed for.
    pub revocation_synced_peers: TextMap<()>,
    /// The identities of peers, by the order in which they were learned.
    pub did_cache: TextMap<Aged<String>>,
    pub did_cache_seq: u64,
}

/// How long ago `since` was, at `now`.
pub open spec fn elapsed(now: u64, since: u64) -> u64 {
    if now >= since {
        (now - since) as u64
    } else {
        0
    }
}

impl EclipseRouter {
    pub open spec fn wf(&self) -> bool {
        &&& self.peer_first_seen.wf()
        &&& self.revocation_synced_peers.wf()
        &&& self.did_cache.wf()
    }

    pub fn new(now_ns: u64) -> (router: Self)
        ensures
            router.wf(),
            router.peer_discovery_count == 0,
            router.peer_discovery_window_ns == now_ns,
            router.peer_first_seen@ == Map::<Seq<char>, Aged<()>>::empty(),
            router.revocation_synced_peers@ == Map::<Seq<char>, ()>::empty(),
            router.did_cache@ == Map::<Seq<char>, Aged<String>>::empty(),
            router.did_cache_seq == 0,
    {
        EclipseRouter {
            peer_discovery_count: 0,
            peer_discovery_window_ns: now_ns,
            peer_first_seen: TextMap::new(),
            revocation_synced_peers: TextMap::new(),
            did_cache: TextMap::new(),
            did_cache_seq: 0,
        }
    }

    /// The number of discoveries in the window that `now_ns` falls into, this
    /// one included.
    pub open spec fn discoveries_at(&self, now_ns: u64) -> u32 {
        if elapsed(now_ns, self.peer_discovery_window_ns) >= DISCOVERY_WINDOW_NS {
            1
        } else if self.peer_discovery_count < u32::MAX {
            (self.peer_discovery_count + 1) as u32
        } else {
            u32::MAX
        }
    }

    /// What the counting of a discovery does.
    pub open spec fn discovery_effect(
        before: Self,
        after: Self,
        now_ns: u64,
        allowed: bool,
    ) -> bool {
        &&& after == (EclipseRouter {
            peer_discovery_count: before.discoveries_at(now_ns),
            peer_discovery_window_ns: if elapsed(now_ns, before.peer_discovery_window_ns)
                >= DISCOVERY_WINDOW_NS {
                now_ns
            } else {
                before.peer_discovery_window_ns
            },
            ..before
        })
        &&& allowed == (before.discoveries_at(now_ns)
            <= mesh_policy::PEER_DISCOVERY_RATE_LIMIT_PER_SEC)
    }

    /// In every second ten discoveries go on, and no more: the first of a new second
    /// always does, and then each as long as fewer than ten came before it.
    pub proof fn law_ten_discoveries_a_second(
        before: Self,
        after: Self,
        now_ns: u64,
        allowed: bool,
    )
        requires
            Self::discovery_effect(before, after, now_ns, allowed),
        ensures
            ({
                let anew = now_ns - before.peer_discovery_window_ns >= 1000000000;
                &&& anew ==> allowed && after.peer_discovery_count == 1
                    && after.peer_discovery_window_ns == now_ns
                &&& !anew ==> (allowed <==> before.peer_discovery_count < 10)
                    && after.peer_discovery_window_ns == before.peer_discovery_window_ns
                &&& !anew && before.peer_discovery_count < u32::MAX ==> after.peer_discovery_count
                    == before.peer_discovery_count + 1
                &&& !anew && !allowed ==> after.peer_discovery_count >= 10
            }),
            after.peer_first_seen == before.peer_first_seen,
            after.did_cache == before.did_cache,
            after.revocation_synced_peers == before.revocation_synced_peers,
    {
    }

    /// Counts a discovery. It goes on to the topology gate unless there were
    /// too many in this second already.
    pub fn count_discovery(&mut self, now_ns: u64) -> (allowed: bool)
        requires
            old(self).wf(),
        ensures
            final(self).wf(),
            Self::discovery_effect(*old(self), *final(self), now_ns, allowed),
    {
        if now_ns.saturating_sub(self.peer_discovery_window_ns) >= DISCOVERY_WINDOW_NS {
            self.peer_discovery_count = 0;
            self.peer_discovery_window_ns = now_ns;
        }
        self.peer_discovery_count = self.peer_discovery_count.saturating_add(1);
        self.peer_discovery_count <= mesh_policy::PEER_DISCOVERY_RATE_LIMIT_PER_SEC
    }

    /// What is answered to a peer whose discovery was one too many.
    pub fn rate_limited() -> (outcome: AdmitOutcome)
        ensures
            outcome == (AdmitOutcome { admitted: false, evicted: None, was_first_seen: false }),
    {
        AdmitOutcome { admitted: false, evicted: None, was_first_seen: false }
    }

    /// `after` knows when `peer` was first seen, if the clock could be read: the
    /// first reading stands.
    pub open spec fn first_seen_noted(
        before: Map<Seq<char>, Aged<()>>,
        after: Map<Seq<char>, Aged<()>>,
        peer: Seq<char>,
        now_secs: Option<u64>,
    ) -> bool {
        exists|room: Map<Seq<char>, Aged<()>>|
            {
                &&& #[trigger] crate::aged_map::has_room_for(
                    before,
                    room,
                    peer,
                    mesh_policy::PEER_FIRST_SEEN_CAP as nat,
                )
                &&& match now_secs {
                    Some(now) => after == if room.dom().contains(peer) {
                        room
                    } else {
                        room.insert(peer, Aged { value: (), age: now })
                    },
                    None => after == room,
                }
            }
    }

    fn update_peer_first_seen(&mut self, peer: &String, now_secs: Option<u64>)
        requires
            old(self).wf(),
        ensures
            final(self).wf(),
            *final(self) == (EclipseRouter {
                peer_first_seen: final(self).peer_first_seen,
                ..*old(self)
            }),
            Self::first_seen_noted(
                old(self).peer_first_seen@,
                final(self).peer_first_seen@,
                peer@,
                now_secs,
            ),
    {
        make_room(&mut self.peer_first_seen, peer, mesh_policy::PEER_FIRST_SEEN_CAP);
        let ghost room = self.peer_first_seen@;
        match now_secs {
            Some(now) => {
                if !self.peer_first_seen.contains(peer) {
                    self.peer_first_seen.insert(peer.clone(), Aged { value: (), age: now });
                }
            },
            None => {},
        }
        assert(crate::aged_map::has_room_for(
            old(self).peer_first_seen@,
            room,
            peer@,
            mesh_policy::PEER_FIRST_SEEN_CAP as nat,
        ));
    }

    /// A peer that is known keeps the time at which it was first seen, whatever
    /// the clock says when it comes back.
    pub proof fn law_reconnect_keeps_first_seen(
        before: Map<Seq<char>, Aged<()>>,
        after: Map<Seq<char>, Aged<()>>,
        peer: Seq<char>,
        now_secs: Option<u64>,
    )
        requires
            before.dom().contains(peer),
            Self::first_seen_noted(before, after, peer, now_secs),
        ensures
            after == before,
    {
    }

    /// What the conclusion of an admission does.
    pub open spec fn verdict_effect(
        before: Self,
        after: Self,
        peer: Seq<char>,
        verdict: GateVerdict,
        now_secs: Option<u64>,
        concluded: (AdmitOutcome, Option<String>),
    ) -> bool {
        match verdict {
            GateVerdict::Rejected => {
                &&& after == before
                &&& concluded.0 == (AdmitOutcome {
                    admitted: false,
                    evicted: None,
                    was_first_seen: false,
                })
                &&& concluded.1 matches Some(p) && p@ == peer
            },
            GateVerdict::Admitted { evicted } => {
                &&& after == (EclipseRouter {
                    peer_first_seen: after.peer_first_seen,
                    revocation_synced_peers: after.revocation_synced_peers,
                    ..before
                })
                &&& Self::first_seen_noted(
                    before.peer_first_seen@,
                    after.peer_first_seen@,
                    peer,
                    now_secs,
                )
                &&& after.revocation_synced_peers@ == before.revocation_synced_peers@.insert(
                    peer,
                    (),
                )
                &&& concluded.0.admitted
                &&& concluded.0.evicted == evicted
                &&& concluded.0.was_first_seen == !before.revocation_synced_peers@.dom().contains(
                    peer,
                )
                &&& match evicted {
                    Some(e) => concluded.1 matches Some(p) && p@ == e@,
                    None => concluded.1 is None,
                }
            },
        }
    }

    /// The topology gate is obeyed: a newcomer that it takes stays and whoever it
    /// puts out for it is disconnected, and a newcomer that it refuses is
    /// disconnected itself. A peer is new the first time that it is taken, and
    /// never again.
    pub proof fn law_the_topology_is_obeyed(
        before: Self,
        between: Self,
        after: Self,
        peer: Seq<char>,
        verdict: GateVerdict,
        later: GateVerdict,
        now_secs: Option<u64>,
        later_secs: Option<u64>,
        first: (AdmitOutcome, Option<String>),
        second: (AdmitOutcome, Option<String>),
    )
        requires
            Self::verdict_effect(before, between, peer, verdict, now_secs, first),
            Self::verdict_effect(between, after, peer, later, later_secs, second),
        ensures
            first.0.admitted <==> verdict is Admitted,
            verdict is Rejected ==> first.1 is Some && first.1->0@ == peer && first.0.evicted is None
                && between == before,
            verdict matches GateVerdict::Admitted { evicted } ==> {
                &&& first.1 is Some <==> evicted is Some
                &&& evicted is Some ==> first.1->0@ == evicted->0@
                &&& first.0.evicted == evicted
                &&& first.0.was_first_seen <==> !before.revocation_synced_peers@.dom().contains(
                    peer,
                )
                &&& !second.0.was_first_seen
            },
    {
    }

    /// The time of a newcomer's first admission is kept, as the clock gave it.
    pub proof fn law_newcomers_are_dated(
        before: Map<Seq<char>, Aged<()>>,
        after: Map<Seq<char>, Aged<()>>,
        peer: Seq<char>,
        now: u64,
        other: Seq<char>,
    )
        requires
            !before.dom().contains(peer),
            Self::first_seen_noted(before, after, peer, Some(now)),
        ensures
            after.dom().contains(peer),
            after[peer].age == now,
            other != peer && after.dom().contains(other) ==> before.dom().contains(other)
                && after[other] == before[other],
            other != peer && before.dom().contains(other) && before.len() < 10000
                ==> after.dom().contains(other),
    {
        let room = choose|room: Map<Seq<char>, Aged<()>>|
            {
                &&& #[trigger] crate::aged_map::has_room_for(
                    before,
                    room,
                    peer,
                    mesh_policy::PEER_FIRST_SEEN_CAP as nat,
                )
                &&& after == if room.dom().contains(peer) {
                    room
                } else {
                    room.insert(peer, Aged { value: (), age: now })
                }
            };
        crate::aged_map::law_only_the_oldest_makes_room(
            before,
            room,
            peer,
            mesh_policy::PEER_FIRST_SEEN_CAP as nat,
        );
    }

    /// Concludes an admission: the answer, and the peer to disconnect, which is
    /// the evicted one or, where the topology refused it, the newcomer.
    pub fn on_verdict(&mut self, peer: &String, verdict: GateVerdict, now_secs: Option<u64>) -> (
        concluded: (AdmitOutcome, Option<String>))
        requires
            old(self).wf(),
        ensures
            final(self).wf(),
            Self::verdict_effect(*old(self), *final(self), peer@, verdict, now_secs, concluded),
    {
        match verdict {
            GateVerdict::Rejected => (Self::rate_limited(), Some(peer.clone())),
            GateVerdict::Admitted { evicted } => {
                self.update_peer_first_seen(peer, now_secs);
                let was_first_seen = match self.revocation_synced_peers.insert(peer.clone(), ()) {
                    Some(_) => false,
                    None => true,
                };
                let disconnect = match &evicted {
                    Some(e) => Some(e.clone()),
                    None => None,
                };
                (AdmitOutcome { admitted: true, evicted, was_first_seen }, disconnect)
            },
        }
    }

    /// Remembers the identity of a peer; the one learned longest ago makes room.
    pub fn cache_did(&mut self, peer: String, did: String)
        requires
            old(self).wf(),
        ensures
            final(self).wf(),
            *final(self) == (EclipseRouter {
                did_cache: final(self).did_cache,
                did_cache_seq: final(self).did_cache_seq,
                ..*old(self)
            }),
            did_is_cached(
                old(self).did_cache@,
                old(self).did_cache_seq,
                final(self).did_cache@,
                final(self).did_cache_seq,
                peer@,
                did,
            ),
    {
        remember_did(&mut self.did_cache, &mut self.did_cache_seq, peer, did);
    }

    /// What each risk leads to.
    pub open spec fn reacts_to(
        now_secs: Option<u64>,
        risk: EclipseRisk,
        own_did: Seq<char>,
        peer_count: usize,
        bootstrap: Seq<Seq<char>>,
        reaction: EclipseReaction,
    ) -> bool {
        match (now_secs, risk) {
            (Some(_), EclipseRisk::Elevated) => reaction.impulse == Some(5u32)
                && reaction.offense is None && reaction.rebootstrap is None,
            (Some(_), EclipseRisk::Critical) => {
                &&& reaction.impulse == Some(20u32)
                &&& reaction.offense matches Some((did, offense)) && did@ == own_did && offense
                    == Offense::EclipseAttempt
                &&& if peer_count < mesh_policy::RE_BOOTSTRAP_TRIGGER_PEER_COUNT && bootstrap.len()
                    > 0 {
                    reaction.rebootstrap matches Some(dial) && text::views(dial@)
                        == bootstrap.take(
                        if bootstrap.len() < REBOOTSTRAP_PEERS {
                            bootstrap.len() as int
                        } else {
                            REBOOTSTRAP_PEERS as int
                        },
                    )
                } else {
                    reaction.rebootstrap is None
                }
            },
            _ => reaction.impulse is None && reaction.offense is None
                && reaction.rebootstrap is None,
        }
    }

    /// A node that is being cut off fights it: at any risk there is pressure, and
    /// only then; at a critical one there is four times as much, the attempt is on
    /// record against the node itself, and a mesh of fewer than ninety-six peers is built
    /// anew from the first three bootstrap peers, or those that there are. Without a
    /// clock the node does nothing.
    pub proof fn law_critical_risk_is_fought(
        now_secs: Option<u64>,
        risk: EclipseRisk,
        own_did: Seq<char>,
        peer_count: usize,
        bootstrap: Seq<Seq<char>>,
        reaction: EclipseReaction,
    )
        requires
            Self::reacts_to(now_secs, risk, own_did, peer_count, bootstrap, reaction),
        ensures
            reaction.impulse is Some <==> now_secs is Some && risk != EclipseRisk::Low,
            reaction.impulse is Some ==> reaction.impulse->0 == if risk == EclipseRisk::Critical {
                20u32
            } else {
                5u32
            },
            reaction.offense is Some <==> now_secs is Some && risk == EclipseRisk::Critical,
            reaction.offense matches Some((did, offense)) ==> did@ == own_did && offense
                == Offense::EclipseAttempt,
            reaction.rebootstrap is Some <==> now_secs is Some && risk == EclipseRisk::Critical
                && peer_count < 96 && bootstrap.len() > 0,
            reaction.rebootstrap matches Some(dial) ==> {
                &&& dial@.len() == vstd::math::min(bootstrap.len() as int, 3)
                &&& forall|i: int|
                    0 <= i < dial@.len() ==> (#[trigger] dial@[i])@ == bootstrap[i]
            },
    {
        match reaction.rebootstrap {
            Some(dial) => {
                assert(text::views(dial@).len() == dial@.len());
                assert forall|i: int| 0 <= i < dial@.len() implies (#[trigger] dial@[i])@
                    == bootstrap[i] by {
                    assert(text::views(dial@)[i] == dial@[i]@);
                }
            },
            None => {},
        }
    }

    /// What is done about the risk that the probe found: pressure on an elevated
    /// one; on a critical one more pressure, an eclipse attempt on record against
    /// the node's own identity, and, where the mesh is thin, a new start from the
    /// first bootstrap peers. Without a clock nothing is done at all.
    pub fn evaluate_eclipse_risk(
        now_secs: Option<u64>,
        risk: EclipseRisk,
        own_did: &String,
        peer_count: usize,
        bootstrap_peers: &Vec<String>,
    ) -> (reaction: EclipseReaction)
        ensures
            Self::reacts_to(
                now_secs,
                risk,
                own_did@,
                peer_count,
                text::views(bootstrap_peers@),
                reaction,
            ),
    {
        match (now_secs, risk) {
            (Some(_), EclipseRisk::Elevated) => EclipseReaction {
                impulse: Some(5),
                offense: None,
                rebootstrap: None,
            },
            (Some(_), EclipseRisk::Critical) => {
                let mut rebootstrap: Option<Vec<String>> = None;
                if peer_count < mesh_policy::RE_BOOTSTRAP_TRIGGER_PEER_COUNT
                    && bootstrap_peers.len() > 0 {
                    let mut dial: Vec<String> = Vec::new();
                    let mut i: usize = 0;
                    while i < bootstrap_peers.len() && i < REBOOTSTRAP_PEERS
                        invariant
                            i <= bootstrap_peers@.len(),
                            i <= REBOOTSTRAP_PEERS,
                            dial@.len() == i,
                            forall|j: int|
                                0 <= j < i ==> (#[trigger] dial@[j])@ == bootstrap_peers@[j]@,
                        decreases REBOOTSTRAP_PEERS - i,
                    {
                        dial.push(bootstrap_peers[i].clone());
                        i += 1;
                    }
                    assert(text::views(dial@) =~= text::views(bootstrap_peers@).take(i as int));
                    rebootstrap = Some(dial);
                }
                EclipseReaction {
                    impulse: Some(20),
                    offense: Some((own_did.clone(), Offense::EclipseAttempt)),
                    rebootstrap,
                }
            },
            _ => EclipseReaction { impulse: None, offense: None, rebootstrap: None },
        }
    }

    /// The sweep for peers that give nothing back is left out while the node
    /// itself gives nothing.
    pub fn sweeps_in(state: PowerState) -> (b: bool)
        ensures
            b == !(state == PowerState::Leaf || state == PowerState::Dormant),
    {
        match state {
            PowerState::Leaf => false,
            PowerState::Dormant => false,
            _ => true,
        }
    }

    /// How long a peer has been known; a peer without a record is new.
    pub fn connected_secs(&self, peer: &String, now_secs: u64) -> (secs: u64)
        requires
            self.wf(),
        ensures
            secs == if self.peer_first_seen@.dom().contains(peer@) {
                elapsed(now_secs, self.peer_first_seen@[peer@].age)
            } else {
                0
            },
    {
        match self.peer_first_seen.get(peer) {
            Some(seen) => now_secs.saturating_sub(seen.age),
            None => 0,
        }
    }

    /// The peers of a sweep, each with the time that it has been known.
    pub open spec fn swept(&self, peers: Seq<Seq<char>>, now_secs: u64) -> Seq<(Seq<char>, u64)> {
        peers.map_values(
            |peer: Seq<char>|
                (
                    peer,
                    if self.peer_first_seen@.dom().contains(peer) {
                        elapsed(now_secs, self.peer_first_seen@[peer].age)
                    } else {
                        0u64
                    },
                ),
        )
    }

    /// `sweep` is the sweep over the admitted peers.
    pub open spec fn is_sweep(
        &self,
        state: PowerState,
        now_secs: Option<u64>,
        admitted: Seq<Seq<char>>,
        sweep: Option<Vec<(String, u64)>>,
    ) -> bool {
        &&& sweep is None <==> state == PowerState::Leaf || state == PowerState::Dormant
            || now_secs is None
        &&& sweep is Some ==> (sweep->0)@.map_values(|e: (String, u64)| (e.0@, e.1)) == self.swept(
            admitted,
            now_secs->0,
        )
    }

    /// A node that gives looks at every peer, each once, with the seconds since it
    /// was first seen.
    pub proof fn law_sweeps_miss_nobody(
        &self,
        state: PowerState,
        now_secs: Option<u64>,
        admitted: Seq<Seq<char>>,
        sweep: Option<Vec<(String, u64)>>,
    )
        requires
            self.is_sweep(state, now_secs, admitted, sweep),
        ensures
            sweep is Some <==> now_secs is Some && (state == PowerState::Normal || state
                == PowerState::Conserving),
            sweep matches Some(list) ==> {
                &&& list@.len() == admitted.len()
                &&& forall|i: int|
                    0 <= i < admitted.len() ==> {
                        &&& (#[trigger] list@[i]).0@ == admitted[i]
                        &&& self.peer_first_seen@.dom().contains(admitted[i])
                            && self.peer_first_seen@[admitted[i]].age <= now_secs->0
                            ==> self.peer_first_seen@[admitted[i]].age + list@[i].1 == now_secs->0
                        &&& !self.peer_first_seen@.dom().contains(admitted[i]) ==> list@[i].1 == 0
                    }
            },
    {
        match sweep {
            Some(list) => {
                let model = list@.map_values(|e: (String, u64)| (e.0@, e.1));
                assert(model.len() == list@.len());
                assert forall|i: int| 0 <= i < admitted.len() implies {
                    &&& (#[trigger] list@[i]).0@ == admitted[i]
                    &&& self.peer_first_seen@.dom().contains(admitted[i])
                        && self.peer_first_seen@[admitted[i]].age <= now_secs->0
                        ==> self.peer_first_seen@[admitted[i]].age + list@[i].1 == now_secs->0
                    &&& !self.peer_first_seen@.dom().contains(admitted[i]) ==> list@[i].1 == 0
                } by {
                    assert(model[i] == (list@[i].0@, list@[i].1));
                    assert(self.swept(admitted, now_secs->0)[i].0 == admitted[i]);
                }
            },
            None => {},
        }
    }

    /// Begins a sweep over the admitted peers. There is none while the node gives
    /// nothing itself, or where the clock cannot be read.
    pub fn sweep_reciprocity_floor(
        &self,
        state: PowerState,
        now_secs: Option<u64>,
        admitted: &Vec<String>,
    ) -> (sweep: Option<Vec<(String, u64)>>)
        requires
            self.wf(),
        ensures
            self.is_sweep(state, now_secs, text::views(admitted@), sweep),
    {
        if !Self::sweeps_in(state) {
            return None;
        }
        match now_secs {
            None => None,
            Some(now) => {
                let mut list: Vec<(String, u64)> = Vec::new();
                let mut i: usize = 0;
                while i < admitted.len()
                    invariant
                        self.wf(),
                        i <= admitted@.len(),
                        list@.len() == i,
                        forall|j: int|
                            0 <= j < i ==> (#[trigger] list@[j]).0@ == admitted@[j]@ && list@[j].1
                                == if self.peer_first_seen@.dom().contains(admitted@[j]@) {
                                elapsed(now, self.peer_first_seen@[admitted@[j]@].age)
                            } else {
                                0
                            },
                    decreases admitted@.len() - i,
                {
                    let secs: u64 = self.connected_secs(&admitted[i], now);
                    list.push((admitted[i].clone(), secs));
                    i += 1;
                }
                assert(list@.map_values(|e: (String, u64)| (e.0@, e.1)) =~= self.swept(
                    text::views(admitted@),
                    now,
                ));
                Some(list)
            },
        }
    }

    /// `list` are the admitted peers that may still become anchors.
    pub open spec fn are_candidates(
        admitted: Seq<Seq<char>>,
        anchored: Seq<Seq<char>>,
        list: Seq<Seq<char>>,
    ) -> bool {
        list == admitted.filter(|p: Seq<char>| !anchored.contains(p))
    }

    /// Every admitted peer is a candidate but those that are anchors already, and nobody
    /// else is.
    pub proof fn law_everybody_else_may_become_an_anchor(
        admitted: Seq<Seq<char>>,
        anchored: Seq<Seq<char>>,
        list: Seq<Seq<char>>,
        peer: Seq<char>,
    )
        requires
            Self::are_candidates(admitted, anchored, list),
        ensures
            list.contains(peer) <==> admitted.contains(peer) && !anchored.contains(peer),
            list.len() <= admitted.len(),
    {
        let free = |p: Seq<char>| !anchored.contains(p);
        admitted.lemma_filter_len(free);
        if list.contains(peer) {
            admitted.lemma_filter_pred(free, list.index_of(peer));
            admitted.lemma_filter_contains_rev(free, peer);
        }
        if admitted.contains(peer) && free(peer) {
            admitted.lemma_filter_contains(free, admitted.index_of(peer));
        }
    }

    /// The admitted peers that may still become anchors, in their order.
    pub fn promote_anchor_candidates(admitted: &Vec<String>, anchored: &Vec<String>) -> (list: Vec<
        String,
    >)
        ensures
            Self::are_candidates(
                text::views(admitted@),
                text::views(anchored@),
                text::views(list@),
            ),
    {
        text::without(admitted, anchored)
    }

    /// `commands` tell of the tokens.
    pub open spec fn are_replayed(tokens: Seq<Vec<u8>>, commands: Seq<EgressCommand>) -> bool {
        commands == tokens.map_values(|t: Vec<u8>| EgressCommand::PublishRevocation(t))
    }

    /// A new peer is told of every revocation, each once, in the order in which they
    /// are stored, and of nothing else.
    pub proof fn law_every_revocation_is_replayed(
        tokens: Seq<Vec<u8>>,
        commands: Seq<EgressCommand>,
    )
        requires
            Self::are_replayed(tokens, commands),
        ensures
            commands.len() == tokens.len(),
            forall|i: int|
                0 <= i < tokens.len() ==> (#[trigger] commands[i])
                    == EgressCommand::PublishRevocation(tokens[i]),
    {
    }

    /// Tells a new peer of every revocation, in the order in which they are stored.
    pub fn replay_revocation_tokens(tokens: Vec<Vec<u8>>) -> (commands: Vec<EgressCommand>)
        ensures
            Self::are_replayed(tokens@, commands@),
    {
        let ghost all = tokens@;
        let mut rest = tokens;
        let mut commands: Vec<EgressCommand> = Vec::new();
        while rest.len() > 0
            invariant
                rest@.len() <= all.len(),
                rest@ == all.subrange(all.len() - rest@.len(), all.len() as int),
                commands@ =~= all.subrange(0, all.len() - rest@.len()).map_values(
                    |t: Vec<u8>| EgressCommand::PublishRevocation(t),
                ),
            decreases rest@.len(),
        {
            let ghost n = all.len() - rest@.len();
            let token = rest.remove(0);
            commands.push(EgressCommand::PublishRevocation(token));
            assert(rest@ =~= all.subrange(n + 1, all.len() as int));
            assert(all.subrange(0, n + 1) =~= all.subrange(0, n).push(token));
        }
        assert(all.subrange(0, all.len() as int) =~= all);
        commands
    }

    /// `charge` is what a peer with a deficit is charged with.
    pub open spec fn is_charge(
        &self,
        peer: Seq<char>,
        severe: bool,
        charge: Option<(String, Offense)>,
    ) -> bool {
        match charge {
            Some((did, offense)) => {
                &&& severe
                &&& self.did_cache@.dom().contains(peer)
                &&& did@ == self.did_cache@[peer].value@
                &&& offense == Offense::NonReciprocal
            },
            None => !severe || !self.did_cache@.dom().contains(peer),
        }
    }

    /// Every known peer with a severe deficit is charged under its own identity, and
    /// nobody else is charged.
    pub proof fn law_severe_deficits_are_charged(
        &self,
        peer: Seq<char>,
        severe: bool,
        charge: Option<(String, Offense)>,
    )
        requires
            self.is_charge(peer, severe, charge),
        ensures
            charge is Some <==> severe && self.did_cache@.dom().contains(peer),
            charge matches Some((did, offense)) ==> did@ == self.did_cache@[peer].value@ && offense
                == Offense::NonReciprocal,
    {
    }

    /// Whom to charge for a peer that gives nothing back, and with what: only a
    /// severe deficit is charged, and only where the peer's identity is known.
    pub fn charged_for(&self, peer: &String, severe: bool) -> (charge: Option<(String, Offense)>)
        requires
            self.wf(),
        ensures
            self.is_charge(peer@, severe, charge),
    {
        if !severe {
            return None;
        }
        match self.did_cache.get(peer) {
            Some(entry) => Some((entry.value.clone(), Offense::NonReciprocal)),
            None => None,
        }
    }
}

/// The number of the next identity to be learned.
pub open spec fn next_seq(seq: u64) -> u64 {
    if seq < u64::MAX {
        (seq + 1) as u64
    } else {
        u64::MAX
    }
}

/// A peer's identity was put in a bounded cache, under the next number.
pub open spec fn did_is_cached(
    before: Map<Seq<char>, Aged<String>>,
    seq: u64,
    after: Map<Seq<char>, Aged<String>>,
    after_seq: u64,
    peer: Seq<char>,
    did: String,
) -> bool {
    &&& after_seq == next_seq(seq)
    &&& exists|room: Map<Seq<char>, Aged<String>>|
        {
            &&& #[trigger] crate::aged_map::has_room_for(
                before,
                room,
                peer,
                mesh_policy::PEER_DID_CACHE_CAP as nat,
            )
            &&& after == room.insert(peer, Aged { value: did, age: after_seq })
        }
}

/// An identity that was learned is known, under a number above all that were given
/// out before, and while there is room for it no other is forgotten.
pub proof fn law_learned_identities_are_known(
    before: Map<Seq<char>, Aged<String>>,
    seq: u64,
    after: Map<Seq<char>, Aged<String>>,
    after_seq: u64,
    peer: Seq<char>,
    did: String,
    other: Seq<char>,
)
    requires
        did_is_cached(before, seq, after, after_seq, peer, did),
    ensures
        after.dom().contains(peer),
        after[peer].value == did,
        seq < u64::MAX ==> after[peer].age == seq + 1 && after_seq == seq + 1,
        other != peer && after.dom().contains(other) ==> before.dom().contains(other)
            && after[other] == before[other],
        other != peer && before.dom().contains(other) && (before.dom().contains(peer)
            || before.len() < 10000) ==> after.dom().contains(other),
        before.dom().finite() && before.len() <= 10000 ==> after.len() <= 10000,
{
    let room = choose|room: Map<Seq<char>, Aged<String>>|
        {
            &&& #[trigger] crate::aged_map::has_room_for(
                before,
                room,
                peer,
                mesh_policy::PEER_DID_CACHE_CAP as nat,
            )
            &&& after == room.insert(peer, Aged { value: did, age: after_seq })
        };
    crate::aged_map::law_only_the_oldest_makes_room(
        before,
        room,
        peer,
        mesh_policy::PEER_DID_CACHE_CAP as nat,
    );
    if before.dom().finite() && before.len() <= 10000 {
        crate::aged_map::law_table_stays_bounded(
            before,
            room,
            peer,
            Aged { value: did, age: after_seq },
            mesh_policy::PEER_DID_CACHE_CAP as nat,
        );
    }
}

/// Puts a peer's identity in a bounded cache.
pub fn remember_did(cache: &mut TextMap<Aged<String>>, seq: &mut u64, peer: String, did: String)
    requires
        old(cache).wf(),
    ensures
        final(cache).wf(),
        did_is_cached(old(cache)@, *old(seq), final(cache)@, *final(seq), peer@, did),
{
    make_room(cache, &peer, mesh_policy::PEER_DID_CACHE_CAP);
    let ghost room = cache@;
    *seq = seq.saturating_add(1);
    cache.insert(peer, Aged { value: did, age: *seq });
    assert(crate::aged_map::has_room_for(
        old(cache)@,
        room,
        peer@,
        mesh_policy::PEER_DID_CACHE_CAP as nat,
    ));
}

} // verus!
