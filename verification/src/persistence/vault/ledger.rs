//! Storage accounting: own evidence against evidence held for others.
use vstd::prelude::*;
use crate::text_map::TextMap;

verus! {

/// Per-node storage accounting. Distinguishes own evidence from foreign data.
pub struct StorageLedger {
    /// Bytes of own evidence stored in the local vault.
    pub own_bytes: u64,
    /// Foreign shards held for the long term.
    pub foreign_committed_bytes: u64,
    /// Foreign shards in the relay buffer (transient, evictable).
    pub foreign_transient_bytes: u64,
    /// Foreign bytes by owner, committed and transient together. They keep one
    /// owner from taking up all the room that there is for others.
    pub foreign_bytes_by_owner: TextMap<u64>,
    /// Cumulative bytes of own evidence pushed to the mesh.
    pub own_bytes_pushed: u64,
}

/// The sum of a list of counts.
pub open spec fn sum_of(counts: Seq<u64>) -> nat
    decreases counts.len(),
{
    if counts.len() == 0 {
        0
    } else {
        sum_of(counts.drop_last()) + counts.last() as nat
    }
}

/// Every count is in the sum, once.
pub proof fn law_every_count_is_in_the_sum(counts: Seq<u64>)
    ensures
        sum_of(counts) == counts.fold_left(0nat, |a: nat, b: u64| (a + b) as nat),
    decreases counts.len(),
{
    reveal(Seq::fold_left);
    if counts.len() > 0 {
        law_every_count_is_in_the_sum(counts.drop_last());
    }
}

/// What is left of the count at position `i` when `n` bytes are taken from a
/// list of counts, from the first on.
pub open spec fn left_of(counts: Seq<u64>, n: nat, i: int) -> u64 {
    let before = sum_of(counts.subrange(0, i));
    if before >= n {
        counts[i]
    } else if before + counts[i] <= n {
        0
    } else {
        (before + counts[i] - n) as u64
    }
}

/// `after` is what is left of `before` when `n` bytes are taken.
pub open spec fn drained(before: Seq<u64>, after: Seq<u64>, n: nat) -> bool {
    &&& after.len() == before.len()
    &&& forall|i: int| 0 <= i < after.len() ==> #[trigger] after[i] == left_of(before, n, i)
}

/// One count is at most the sum, and another count in its place changes the sum
/// by the difference.
proof fn lemma_sum_update(counts: Seq<u64>, i: int, n: u64)
    requires
        0 <= i < counts.len(),
    ensures
        counts[i] <= sum_of(counts),
        sum_of(counts.update(i, n)) == sum_of(counts) - counts[i] + n,
    decreases counts.len(),
{
    if i == counts.len() - 1 {
        assert(counts.update(i, n).drop_last() =~= counts.drop_last());
    } else {
        lemma_sum_update(counts.drop_last(), i, n);
        assert(counts.update(i, n).drop_last() =~= counts.drop_last().update(i, n));
    }
}

proof fn lemma_sum_grows(counts: Seq<u64>, i: int, j: int)
    requires
        0 <= i <= j <= counts.len(),
    ensures
        sum_of(counts.subrange(0, i)) <= sum_of(counts.subrange(0, j)),
    decreases j - i,
{
    if i < j {
        lemma_sum_grows(counts, i, j - 1);
        assert(counts.subrange(0, j).drop_last() =~= counts.subrange(0, j - 1));
    }
}

proof fn lemma_drained_sum(before: Seq<u64>, after: Seq<u64>, n: nat, k: int)
    requires
        drained(before, after, n),
        0 <= k <= before.len(),
    ensures
        sum_of(after.subrange(0, k)) == if sum_of(before.subrange(0, k)) <= n {
            0
        } else {
            (sum_of(before.subrange(0, k)) - n) as nat
        },
    decreases k,
{
    if k > 0 {
        lemma_drained_sum(before, after, n, k - 1);
        assert(before.subrange(0, k).drop_last() =~= before.subrange(0, k - 1));
        assert(after.subrange(0, k).drop_last() =~= after.subrange(0, k - 1));
        assert(after[k - 1] == left_of(before, n, k - 1));
    }
}

impl StorageLedger {
    /// The table of owners holds no owner twice, and its counts add up to the
    /// foreign bytes.
    pub open spec fn wf(&self) -> bool {
        &&& self.foreign_bytes_by_owner.wf()
        &&& sum_of(self.foreign_bytes_by_owner.values()) == self.foreign_total()
    }

    /// Foreign bytes, committed and transient.
    pub open spec fn foreign_total(&self) -> int {
        self.foreign_committed_bytes + self.foreign_transient_bytes
    }

    /// All bytes held locally.
    pub open spec fn local_total(&self) -> int {
        self.own_bytes + self.foreign_total()
    }

    /// The bytes counted for an owner; none where the owner is not known.
    pub open spec fn owner_total(&self, owner: Seq<char>) -> u64 {
        if self.foreign_bytes_by_owner@.dom().contains(owner) {
            self.foreign_bytes_by_owner@[owner]
        } else {
            0
        }
    }

    /// The totals leave no count out: own and foreign bytes, committed and transient.
    pub proof fn law_totals_hold_every_count(&self)
        ensures
            self.foreign_total() == self.foreign_committed_bytes + self.foreign_transient_bytes,
            self.local_total() == self.own_bytes + self.foreign_committed_bytes
                + self.foreign_transient_bytes,
    {
    }

    /// A ledger with all counts at zero.
    pub fn new() -> (ledger: Self)
        ensures
            ledger.wf(),
            ledger.own_bytes == 0,
            ledger.foreign_committed_bytes == 0,
            ledger.foreign_transient_bytes == 0,
            ledger.own_bytes_pushed == 0,
            ledger.foreign_bytes_by_owner@ == Map::<Seq<char>, u64>::empty(),
    {
        StorageLedger {
            own_bytes: 0,
            foreign_committed_bytes: 0,
            foreign_transient_bytes: 0,
            foreign_bytes_by_owner: TextMap::new(),
            own_bytes_pushed: 0,
        }
    }

    /// Total foreign bytes (committed + transient).
    pub fn total_foreign_bytes(&self) -> (n: u64)
        requires
            self.foreign_total() <= u64::MAX,
        ensures
            n == self.foreign_total(),
    {
        self.foreign_committed_bytes + self.foreign_transient_bytes
    }

    /// Total bytes held locally (own + all foreign).
    pub fn total_local_bytes(&self) -> (n: u64)
        requires
            self.local_total() <= u64::MAX,
        ensures
            n == self.local_total(),
    {
        self.own_bytes + self.total_foreign_bytes()
    }

    /// `after` is `before` with more own bytes.
    pub open spec fn own_ingested(before: Self, after: Self, bytes: u64) -> bool {
        after == (StorageLedger { own_bytes: (before.own_bytes + bytes) as u64, ..before })
    }

    /// `after` is `before` with more own bytes pushed.
    pub open spec fn own_pushed(before: Self, after: Self, bytes: u64) -> bool {
        after == (StorageLedger {
            own_bytes_pushed: (before.own_bytes_pushed + bytes) as u64,
            ..before
        })
    }

    /// `after` is `before` with more foreign bytes of an owner.
    pub open spec fn foreign_ingested(
        before: Self,
        after: Self,
        bytes: u64,
        owner: Seq<char>,
    ) -> bool {
        &&& after == (StorageLedger {
            foreign_transient_bytes: (before.foreign_transient_bytes + bytes) as u64,
            foreign_bytes_by_owner: after.foreign_bytes_by_owner,
            ..before
        })
        &&& after.foreign_bytes_by_owner@ == before.foreign_bytes_by_owner@.insert(
            owner,
            (before.owner_total(owner) + bytes) as u64,
        )
    }

    /// `after` is `before` with transient bytes made committed ones.
    pub open spec fn promoted(before: Self, after: Self, bytes: u64) -> bool {
        &&& after == (StorageLedger {
            foreign_transient_bytes: after.foreign_transient_bytes,
            foreign_committed_bytes: after.foreign_committed_bytes,
            ..before
        })
        &&& after.foreign_transient_bytes == if bytes <= before.foreign_transient_bytes {
            before.foreign_transient_bytes - bytes
        } else {
            0
        }
        &&& after.foreign_total() == before.foreign_total()
    }

    /// `after` is `before` with transient bytes gone, from the owners too.
    pub open spec fn eviction(before: Self, after: Self, bytes: u64) -> bool {
        &&& after == (StorageLedger {
            foreign_transient_bytes: (before.foreign_transient_bytes - before.evicted(
                bytes,
            )) as u64,
            foreign_bytes_by_owner: after.foreign_bytes_by_owner,
            ..before
        })
        &&& after.foreign_bytes_by_owner.keys() == before.foreign_bytes_by_owner.keys()
        &&& after.foreign_bytes_by_owner@.dom() == before.foreign_bytes_by_owner@.dom()
        &&& drained(
            before.foreign_bytes_by_owner.values(),
            after.foreign_bytes_by_owner.values(),
            before.evicted(bytes) as nat,
        )
    }

    /// Every step of the ledger moves exactly the bytes that it is told of, and
    /// moves them between the right counts: ingestion adds them to own or to
    /// transient bytes, a push to those pushed, promotion takes them from transient
    /// to committed, and eviction takes them from transient bytes, the last two no
    /// more than there are.
    pub proof fn law_steps_move_what_they_are_told(
        before: Self,
        after: Self,
        bytes: u64,
        owner: Seq<char>,
    )
        requires
            before.wf(),
            after.wf(),
            before.own_bytes + before.foreign_total() + before.own_bytes_pushed + bytes
                <= u64::MAX,
        ensures
            Self::own_ingested(before, after, bytes) ==> {
                &&& after.own_bytes == before.own_bytes + bytes
                &&& after.foreign_transient_bytes == before.foreign_transient_bytes
                &&& after.foreign_committed_bytes == before.foreign_committed_bytes
                &&& after.own_bytes_pushed == before.own_bytes_pushed
            },
            Self::own_pushed(before, after, bytes) ==> {
                &&& after.own_bytes_pushed == before.own_bytes_pushed + bytes
                &&& after.own_bytes == before.own_bytes
                &&& after.foreign_transient_bytes == before.foreign_transient_bytes
                &&& after.foreign_committed_bytes == before.foreign_committed_bytes
            },
            Self::foreign_ingested(before, after, bytes, owner) ==> {
                &&& after.foreign_transient_bytes == before.foreign_transient_bytes + bytes
                &&& after.foreign_committed_bytes == before.foreign_committed_bytes
                &&& after.own_bytes == before.own_bytes
                &&& after.foreign_bytes_by_owner@.dom().contains(owner)
                &&& after.foreign_bytes_by_owner@[owner] == bytes + if before
                    .foreign_bytes_by_owner@.dom().contains(owner) {
                    before.foreign_bytes_by_owner@[owner] as int
                } else {
                    0
                }
            },
            Self::promoted(before, after, bytes) ==> {
                &&& after.foreign_transient_bytes + after.foreign_committed_bytes
                    == before.foreign_transient_bytes + before.foreign_committed_bytes
                &&& bytes <= before.foreign_transient_bytes ==> after.foreign_committed_bytes
                    == before.foreign_committed_bytes + bytes
                &&& bytes >= before.foreign_transient_bytes ==> after.foreign_transient_bytes == 0
                &&& after.own_bytes == before.own_bytes
                &&& after.foreign_bytes_by_owner == before.foreign_bytes_by_owner
            },
            Self::eviction(before, after, bytes) ==> {
                &&& bytes <= before.foreign_transient_bytes ==> after.foreign_transient_bytes
                    == before.foreign_transient_bytes - bytes
                &&& bytes >= before.foreign_transient_bytes ==> after.foreign_transient_bytes == 0
                &&& after.foreign_committed_bytes == before.foreign_committed_bytes
                &&& after.own_bytes == before.own_bytes
                &&& after.foreign_bytes_by_owner@.dom() == before.foreign_bytes_by_owner@.dom()
            },
    {
        before.law_owner_counts_add_up(owner);
    }

    /// Eviction starts with the owners that were counted first: as long as such an
    /// owner has bytes left, no later one loses any.
    pub proof fn law_eviction_starts_with_the_first(
        before: Self,
        after: Self,
        bytes: u64,
        i: int,
        j: int,
    )
        requires
            Self::eviction(before, after, bytes),
            0 <= i < j < before.foreign_bytes_by_owner.values().len(),
            after.foreign_bytes_by_owner.values()[i] > 0,
        ensures
            after.foreign_bytes_by_owner.values()[j] == before.foreign_bytes_by_owner.values()[j],
            after.foreign_bytes_by_owner.values()[i] <= before.foreign_bytes_by_owner.values()[i],
    {
        let counts = before.foreign_bytes_by_owner.values();
        let n = before.evicted(bytes) as nat;
        assert(after.foreign_bytes_by_owner.values()[i] == left_of(counts, n, i));
        assert(after.foreign_bytes_by_owner.values()[j] == left_of(counts, n, j));
        lemma_sum_grows(counts, i + 1, j);
        assert(counts.subrange(0, i + 1).drop_last() =~= counts.subrange(0, i));
    }

    /// Record ingestion of own evidence.
    pub fn record_own_ingestion(&mut self, bytes: u64)
        requires
            old(self).wf(),
            old(self).own_bytes + bytes <= u64::MAX,
        ensures
            final(self).wf(),
            Self::own_ingested(*old(self), *final(self), bytes),
    {
        self.own_bytes = self.own_bytes + bytes;
    }

    /// Record ingestion of foreign evidence (transient until promoted to
    /// committed), for its owner too.
    pub fn record_foreign_ingestion(&mut self, bytes: u64, owner: &String)
        requires
            old(self).wf(),
            old(self).foreign_total() + bytes <= u64::MAX,
        ensures
            final(self).wf(),
            Self::foreign_ingested(*old(self), *final(self), bytes, owner@),
            old(self).owner_total(owner@) + bytes <= u64::MAX,
            final(self).foreign_bytes_by_owner.keys() == if old(
                self,
            ).foreign_bytes_by_owner@.dom().contains(owner@) {
                old(self).foreign_bytes_by_owner.keys()
            } else {
                old(self).foreign_bytes_by_owner.keys().push(owner@)
            },
    {
        let ghost keys = self.foreign_bytes_by_owner.keys();
        let ghost counts = self.foreign_bytes_by_owner.values();
        let held: u64 = self.foreign_bytes_for_owner(owner);
        proof {
            self.foreign_bytes_by_owner.lemma_entries();
            if self.foreign_bytes_by_owner@.dom().contains(owner@) {
                let i = keys.index_of(owner@);
                assert(keys[i] == owner@);
                lemma_sum_update(counts, i, 0);
                assert(counts[i] == held);
                if held + bytes <= u64::MAX {
                    lemma_sum_update(counts, i, (held + bytes) as u64);
                }
            }
        }
        self.foreign_transient_bytes = self.foreign_transient_bytes + bytes;
        self.foreign_bytes_by_owner.insert(owner.clone(), held + bytes);
        proof {
            let after = self.foreign_bytes_by_owner.values();
            if after.len() == counts.len() + 1 {
                assert(after.drop_last() =~= counts);
            }
        }
    }

    /// Returns the total foreign bytes tracked for a specific owner.
    pub fn foreign_bytes_for_owner(&self, owner: &String) -> (n: u64)
        requires
            self.wf(),
        ensures
            n == self.owner_total(owner@),
    {
        match self.foreign_bytes_by_owner.get(owner) {
            Some(n) => *n,
            None => 0,
        }
    }

    /// Promote transient foreign storage to committed; no more than there is.
    pub fn promote_to_committed(&mut self, bytes: u64)
        requires
            old(self).wf(),
            old(self).foreign_total() <= u64::MAX,
        ensures
            final(self).wf(),
            Self::promoted(*old(self), *final(self), bytes),
    {
        let moved: u64 = if bytes <= self.foreign_transient_bytes {
            bytes
        } else {
            self.foreign_transient_bytes
        };
        self.foreign_transient_bytes = self.foreign_transient_bytes - moved;
        self.foreign_committed_bytes = self.foreign_committed_bytes + moved;
    }

    /// Record bytes of own evidence successfully pushed to the mesh.
    pub fn record_own_push(&mut self, bytes: u64)
        requires
            old(self).wf(),
            old(self).own_bytes_pushed + bytes <= u64::MAX,
        ensures
            final(self).wf(),
            Self::own_pushed(*old(self), *final(self), bytes),
    {
        self.own_bytes_pushed = self.own_bytes_pushed + bytes;
    }

    /// The transient bytes that an eviction of `bytes` takes: no more than there are.
    pub open spec fn evicted(&self, bytes: u64) -> u64 {
        if bytes <= self.foreign_transient_bytes {
            bytes
        } else {
            self.foreign_transient_bytes
        }
    }

    /// Evict foreign transient bytes (e.g., relay buffer cleanup). The owners lose
    /// them from their counts, those first that were first counted.
    pub fn evict_transient(&mut self, bytes: u64)
        requires
            old(self).wf(),
        ensures
            final(self).wf(),
            Self::eviction(*old(self), *final(self), bytes),
            forall|owner: Seq<char>| #[trigger]
                final(self).owner_total(owner) <= old(self).owner_total(owner),
            forall|owner: Seq<char>|
                old(self).foreign_bytes_by_owner@.dom() =~= set![owner] ==>
                    #[trigger] final(self).owner_total(owner) == final(self).foreign_total(),
    {
        let evicted: u64 = if bytes <= self.foreign_transient_bytes {
            bytes
        } else {
            self.foreign_transient_bytes
        };
        let ghost counts = self.foreign_bytes_by_owner.values();
        let ghost before = *self;
        let n: usize = self.foreign_bytes_by_owner.len();
        self.foreign_transient_bytes = self.foreign_transient_bytes - evicted;
        let mut rest: u64 = evicted;
        let mut i: usize = 0;
        assert(counts.subrange(0, 0) =~= Seq::<u64>::empty());
        while i < n
            invariant
                i <= n,
                n == counts.len(),
                self.foreign_bytes_by_owner.wf(),
                *self == (StorageLedger {
                    foreign_transient_bytes: self.foreign_transient_bytes,
                    foreign_bytes_by_owner: self.foreign_bytes_by_owner,
                    ..before
                }),
                self.foreign_transient_bytes == before.foreign_transient_bytes - evicted,
                self.foreign_bytes_by_owner.keys() == before.foreign_bytes_by_owner.keys(),
                self.foreign_bytes_by_owner.keys().len() == n,
                self.foreign_bytes_by_owner.values().len() == n,
                forall|j: int|
                    0 <= j < i ==> #[trigger] self.foreign_bytes_by_owner.values()[j] == left_of(
                        counts,
                        evicted as nat,
                        j,
                    ),
                forall|j: int|
                    i <= j < n ==> #[trigger] self.foreign_bytes_by_owner.values()[j] == counts[j],
                rest == if sum_of(counts.subrange(0, i as int)) <= evicted {
                    evicted - sum_of(counts.subrange(0, i as int))
                } else {
                    0
                },
            decreases n - i,
        {
            let held: u64 = *self.foreign_bytes_by_owner.value_at(i);
            let taken: u64 = if held <= rest {
                held
            } else {
                rest
            };
            proof {
                assert(counts.subrange(0, i + 1).drop_last() =~= counts.subrange(0, i as int));
                assert(held == counts[i as int]);
                assert(held - taken == left_of(counts, evicted as nat, i as int));
            }
            self.foreign_bytes_by_owner.set_value_at(i, held - taken);
            rest = rest - taken;
            i += 1;
        }
        proof {
            let after = self.foreign_bytes_by_owner.values();
            assert(drained(counts, after, evicted as nat));
            lemma_drained_sum(counts, after, evicted as nat, n as int);
            assert(counts.subrange(0, n as int) =~= counts);
            assert(after.subrange(0, n as int) =~= after);
            before.foreign_bytes_by_owner.lemma_entries();
            self.foreign_bytes_by_owner.lemma_entries();
            assert forall|owner: Seq<char>| #[trigger]
                self.owner_total(owner) <= before.owner_total(owner) by {
                if self.foreign_bytes_by_owner@.dom().contains(owner) {
                    let keys = self.foreign_bytes_by_owner.keys();
                    let p = keys.index_of(owner);
                    assert(keys[p] == owner);
                    assert(after[p] == left_of(counts, evicted as nat, p));
                    assert(before.foreign_bytes_by_owner.keys()[p] == owner);
                }
            }
            assert forall|owner: Seq<char>|
                before.foreign_bytes_by_owner@.dom() =~= set![
                    owner,
                ] implies #[trigger] self.owner_total(owner) == self.foreign_total() by {
                self.law_owner_counts_add_up(owner);
            }
        }
    }

    /// The counts of the owners add up to the foreign bytes: no owner counts for
    /// more than there is, and a single owner for all of it.
    pub proof fn law_owner_counts_add_up(&self, owner: Seq<char>)
        requires
            self.wf(),
        ensures
            self.owner_total(owner) <= self.foreign_total(),
            self.foreign_bytes_by_owner@.dom() =~= set![owner] ==> self.owner_total(owner)
                == self.foreign_total(),
    {
        let keys = self.foreign_bytes_by_owner.keys();
        let counts = self.foreign_bytes_by_owner.values();
        self.foreign_bytes_by_owner.lemma_entries();
        if self.foreign_bytes_by_owner@.dom().contains(owner) {
            let p = keys.index_of(owner);
            assert(keys[p] == owner);
            lemma_sum_update(counts, p, 0);
            if self.foreign_bytes_by_owner@.dom() =~= set![owner] {
                assert(set![owner].len() == 1);
                assert(counts.len() == 1);
                reveal_with_fuel(sum_of, 2);
                assert(counts.drop_last() =~= Seq::<u64>::empty());
            }
        }
    }
}

impl Default for StorageLedger {
    fn default() -> (ledger: Self)
        ensures
            ledger.wf(),
            ledger.own_bytes == 0,
            ledger.foreign_committed_bytes == 0,
            ledger.foreign_transient_bytes == 0,
            ledger.own_bytes_pushed == 0,
            ledger.foreign_bytes_by_owner@ == Map::<Seq<char>, u64>::empty(),
    {
        StorageLedger::new()
    }
}

} // verus!
