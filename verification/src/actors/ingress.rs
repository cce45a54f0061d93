//! The edge in front of the reassembler: duplicates and blocked owners stop here.
use vstd::prelude::*;
use crate::evidence::{GuardianError, Offense};

verus! {

/// Why a chunk was turned away.
#[derive(Debug)]
pub enum IngressError {
    /// The owner is blocked.
    Blacklisted(String),
    /// The governor refused the traffic.
    Throttled,
    /// The reassembler refused the chunk.
    ReassemblerRejected(String),
    /// The vault refused the envelope.
    GuardianRejected(GuardianError),
}

/// What became of a chunk in the reassembler.
#[derive(Debug)]
pub enum Assembled {
    /// It completed an envelope, on which the vault gave this verdict.
    Complete(Result<(), GuardianError>),
    Incomplete,
    Rejected(String),
}

/// The chunks that were seen, each once.
pub struct SeenCache {
    entries: Vec<(String, u32)>,
}

impl View for SeenCache {
    type V = Set<(Seq<char>, u32)>;

    closed spec fn view(&self) -> Set<(Seq<char>, u32)> {
        self.entries@.map_values(|e: (String, u32)| (e.0@, e.1)).to_set()
    }
}

impl SeenCache {
    pub fn new() -> (cache: Self)
        ensures
            cache@ == Set::<(Seq<char>, u32)>::empty(),
    {
        let cache = SeenCache { entries: Vec::new() };
        assert(cache@ =~= Set::<(Seq<char>, u32)>::empty());
        cache
    }

    /// Notes a chunk. Tells whether it is new.
    pub fn insert(&mut self, shard_id: &String, chunk_index: u32) -> (new: bool)
        ensures
            new == !old(self)@.contains((shard_id@, chunk_index)),
            final(self)@ == old(self)@.insert((shard_id@, chunk_index)),
    {
        let ghost before = self.entries@.map_values(|e: (String, u32)| (e.0@, e.1));
        let mut i: usize = 0;
        while i < self.entries.len()
            invariant
                i <= self.entries@.len(),
                before == self.entries@.map_values(|e: (String, u32)| (e.0@, e.1)),
                forall|j: int| 0 <= j < i ==> #[trigger] before[j] != (shard_id@, chunk_index),
                *self == *old(self),
            decreases self.entries@.len() - i,
        {
            if self.entries[i].1 == chunk_index && self.entries[i].0 == *shard_id {
                assert(before[i as int] == (shard_id@, chunk_index));
                assert(self@ =~= old(self)@.insert((shard_id@, chunk_index)));
                return false;
            }
            i += 1;
        }
        self.entries.push((shard_id.clone(), chunk_index));
        proof {
            let after = self.entries@.map_values(|e: (String, u32)| (e.0@, e.1));
            assert(after =~= before.push((shard_id@, chunk_index)));
            before.lemma_push_to_set_commute((shard_id@, chunk_index));
        }
        true
    }
}

/// The edge: what was seen before.
pub struct IngressOrchestrator {
    pub seen_cache: SeenCache,
}

impl IngressOrchestrator {
    /// What a chunk does.
    pub open spec fn chunk_effect(
        before: Self,
        after: Self,
        shard_id: Seq<char>,
        chunk_index: u32,
        owner: Seq<char>,
        blocked: bool,
        verdict: Result<bool, IngressError>,
    ) -> bool {
        &&& after.seen_cache@ == before.seen_cache@.insert((shard_id, chunk_index))
        &&& if before.seen_cache@.contains((shard_id, chunk_index)) {
            verdict == Ok::<bool, IngressError>(false)
        } else if blocked {
            verdict matches Err(IngressError::Blacklisted(did)) && did@ == owner
        } else {
            verdict == Ok::<bool, IngressError>(true)
        }
    }

    /// A chunk of an owner who is not blocked goes on the first time, and no other
    /// chunk keeps it from that; the second time it is dropped in silence, whoever
    /// sent it.
    pub proof fn law_every_chunk_goes_on_once(
        s0: Self,
        s1: Self,
        s2: Self,
        first: (Seq<char>, u32),
        second: (Seq<char>, u32),
        owner: Seq<char>,
        other_owner: Seq<char>,
        blocked: bool,
        other_blocked: bool,
        verdict: Result<bool, IngressError>,
        other_verdict: Result<bool, IngressError>,
    )
        requires
            !s0.seen_cache@.contains(first),
            !s0.seen_cache@.contains(second),
            Self::chunk_effect(s0, s1, first.0, first.1, owner, blocked, verdict),
            Self::chunk_effect(
                s1,
                s2,
                second.0,
                second.1,
                other_owner,
                other_blocked,
                other_verdict,
            ),
        ensures
            verdict is Ok <==> !blocked,
            verdict is Ok ==> verdict->Ok_0,
            verdict is Err ==> (verdict->Err_0 matches IngressError::Blacklisted(did) && did@
                == owner),
            first == second ==> other_verdict is Ok && !other_verdict->Ok_0,
            first != second ==> (other_verdict is Ok <==> !other_blocked),
            first != second && !other_blocked ==> other_verdict->Ok_0,
    {
    }

    /// Lets a chunk on to the reassembler. A duplicate is dropped without a
    /// word; a chunk of a blocked owner is refused, and counts as seen.
    pub fn process_chunk(&mut self, shard_id: &String, chunk_index: u32, owner: &String, blocked: bool)
        -> (verdict: Result<bool, IngressError>)
        ensures
            Self::chunk_effect(
                *old(self),
                *final(self),
                shard_id@,
                chunk_index,
                owner@,
                blocked,
                verdict,
            ),
    {
        if !self.seen_cache.insert(shard_id, chunk_index) {
            return Ok(false);
        }
        if blocked {
            return Err(IngressError::Blacklisted(owner.clone()));
        }
        Ok(true)
    }

    /// The offense of an owner whose envelope the vault refused, if it is one here.
    pub open spec fn offense_of(error: GuardianError) -> Option<Offense> {
        match error {
            GuardianError::InvalidSignature(_) => Some(Offense::InvalidSignature),
            GuardianError::QuotaExceeded(_) => Some(Offense::QuotaExceeded),
            _ => None,
        }
    }

    fn judge(error: &GuardianError) -> (offense: Option<Offense>)
        ensures
            offense == Self::offense_of(*error),
    {
        match error {
            GuardianError::InvalidSignature(_) => Some(Offense::InvalidSignature),
            GuardianError::QuotaExceeded(_) => Some(Offense::QuotaExceeded),
            _ => None,
        }
    }

    /// How a chunk ends.
    pub open spec fn concludes(
        outcome: Assembled,
        concluded: (Result<bool, IngressError>, Option<Offense>),
    ) -> bool {
        match outcome {
            Assembled::Complete(Ok(())) => concluded.0 == Ok::<bool, IngressError>(true)
                && concluded.1 is None,
            Assembled::Complete(Err(e)) => concluded.0 == Err::<bool, IngressError>(
                IngressError::GuardianRejected(e),
            ) && concluded.1 == Self::offense_of(e),
            Assembled::Incomplete => concluded.0 == Ok::<bool, IngressError>(false)
                && concluded.1 is None,
            Assembled::Rejected(m) => concluded.0 == Err::<bool, IngressError>(
                IngressError::ReassemblerRejected(m),
            ) && concluded.1 is None,
        }
    }

    /// Whoever sends a bad signature or outgrows a quota is charged with just that,
    /// and nobody is charged for anything else; an envelope counts as accepted exactly
    /// where the vault took it, and a refusal is handed back as it was given.
    pub proof fn law_only_offenders_are_charged(
        outcome: Assembled,
        concluded: (Result<bool, IngressError>, Option<Offense>),
    )
        requires
            Self::concludes(outcome, concluded),
        ensures
            concluded.1 == Some(Offense::InvalidSignature) <==> (outcome matches
                Assembled::Complete(Err(GuardianError::InvalidSignature(_)))),
            concluded.1 == Some(Offense::QuotaExceeded) <==> (outcome matches Assembled::Complete(
                Err(GuardianError::QuotaExceeded(_)),
            )),
            concluded.1 is Some ==> concluded.1->0 == Offense::InvalidSignature || concluded.1->0
                == Offense::QuotaExceeded,
            (concluded.0 is Ok && concluded.0->Ok_0) <==> (outcome matches Assembled::Complete(
                Ok(()),
            )),
            (concluded.0 is Ok && !concluded.0->Ok_0) <==> outcome is Incomplete,
            outcome matches Assembled::Complete(Err(e)) ==> (concluded.0->Err_0 matches
                IngressError::GuardianRejected(g) && g == e),
            outcome matches Assembled::Rejected(m) ==> (concluded.0->Err_0 matches
                IngressError::ReassemblerRejected(r) && r == m),
    {
    }

    /// Concludes a chunk: whether it completed an accepted envelope, and which
    /// offense is to be recorded.
    pub fn conclude(outcome: Assembled) -> (concluded: (Result<bool, IngressError>, Option<Offense>))
        ensures
            Self::concludes(outcome, concluded),
    {
        match outcome {
            Assembled::Complete(Ok(())) => (Ok(true), None),
            Assembled::Complete(Err(e)) => {
                let offense = Self::judge(&e);
                (Err(IngressError::GuardianRejected(e)), offense)
            },
            Assembled::Incomplete => (Ok(false), None),
            Assembled::Rejected(m) => (Err(IngressError::ReassemblerRejected(m)), None),
        }
    }
}

} // verus!
