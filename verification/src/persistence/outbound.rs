//! The outbound queue: evidence that could not be published waits here, in the
//! order of its capture, until it goes through or has failed too often. Every
//! entry also has a record on disk, from which the queue is rebuilt after a crash.
use vstd::prelude::*;
use vstd::arithmetic::power2::pow2;
use vstd::string::*;
use crate::paths;
use crate::text;
use crate::wire;

verus! {

/// After this many failed attempts an entry is abandoned.
pub const MAX_ATTEMPTS: u32 = 10;

/// The bytes that the queue takes at most.
pub const MAX_QUEUE_BYTES: u64 = 16777216;

/// The number of an entry. Numbers grow with every entry.
#[derive(Debug, Clone, Copy, PartialEq, Eq, Hash, Structural)]
pub struct OutboundEntryId(pub u64);

/// Evidence that waits to be published.
#[derive(Debug)]
pub struct OutboundEntry {
    pub id: OutboundEntryId,
    pub topic: String,
    pub envelope_bytes: Vec<u8>,
    pub captured_at: u64,
    pub attempts: u32,
    pub last_attempt: Option<u64>,
}

/// An entry as plain values: number, topic, payload, time of capture, attempts
/// and last attempt.
pub type Record = (u64, Seq<char>, Seq<u8>, u64, u32, Option<u64>);

impl View for OutboundEntry {
    type V = Record;

    open spec fn view(&self) -> Record {
        (
            self.id.0,
            self.topic@,
            self.envelope_bytes@,
            self.captured_at,
            self.attempts,
            self.last_attempt,
        )
    }
}

/// The entries as plain values.
pub open spec fn models(entries: Seq<OutboundEntry>) -> Seq<Record> {
    entries.map_values(|e: OutboundEntry| e@)
}

/// The queue is full.
#[derive(Debug, Clone, Copy, PartialEq, Eq, Structural)]
pub struct QueueFull;

impl QueueFull {
    pub fn message(&self) -> (s: String)
        ensures
            s@ == "Outbound queue capacity exceeded"@,
    {
        "Outbound queue capacity exceeded".to_owned()
    }
}

/// The queue of unsent evidence.
pub struct OutboundQueue {
    pub wal_dir: String,
    pub entries: Vec<OutboundEntry>,
    pub total_bytes: u64,
    pub next_id: u64,
}

/// The payload bytes of the entries.
pub open spec fn bytes_of(entries: Seq<OutboundEntry>) -> nat
    decreases entries.len(),
{
    if entries.len() == 0 {
        0
    } else {
        bytes_of(entries.drop_last()) + entries.last().envelope_bytes@.len()
    }
}

/// Every payload byte that waits is counted, once.
pub proof fn law_every_waiting_byte_is_counted(entries: Seq<OutboundEntry>)
    ensures
        bytes_of(entries) == entries.fold_left(
            0nat,
            |a: nat, e: OutboundEntry| a + e.envelope_bytes@.len(),
        ),
    decreases entries.len(),
{
    reveal(Seq::fold_left);
    if entries.len() > 0 {
        law_every_waiting_byte_is_counted(entries.drop_last());
    }
}

/// The bytes of two runs of entries add up.
pub proof fn lemma_bytes_add(a: Seq<OutboundEntry>, b: Seq<OutboundEntry>)
    ensures
        bytes_of(a + b) == bytes_of(a) + bytes_of(b),
    decreases b.len(),
{
    if b.len() == 0 {
        assert(a + b =~= a);
    } else {
        assert((a + b).drop_last() =~= a + b.drop_last());
        lemma_bytes_add(a, b.drop_last());
    }
}

/// `a + b`, or the largest number where that is too large.
pub open spec fn capped_sum(a: nat, b: nat) -> u64 {
    if a + b > u64::MAX {
        u64::MAX
    } else {
        (a + b) as u64
    }
}

/// The delay in seconds after this many attempts: five seconds, doubled with
/// each attempt, and never more than five minutes.
pub open spec fn backoff(attempts: u32) -> u64 {
    if attempts == 0 {
        5
    } else if attempts == 1 {
        10
    } else if attempts == 2 {
        20
    } else if attempts == 3 {
        40
    } else if attempts == 4 {
        80
    } else if attempts == 5 {
        160
    } else {
        300
    }
}

/// The delay never shrinks as attempts add up, doubles until it meets its cap,
/// and stays between five seconds and five minutes.
pub proof fn law_backoff_doubles_to_its_cap(attempts: u32)
    requires
        attempts < u32::MAX,
    ensures
        5 <= backoff(attempts) <= 300,
        backoff((attempts + 1) as u32) == if 2 * backoff(attempts) < 300 {
            2 * backoff(attempts)
        } else {
            300
        },
{
}

proof fn lemma_backoff_is_a_power(attempts: u32)
    ensures
        backoff(attempts) == if 5 * pow2(attempts as nat) < 300 {
            5 * pow2(attempts as nat)
        } else {
            300
        },
{
    vstd::arithmetic::power2::lemma2_to64();
    if attempts >= 6 {
        if attempts > 6 {
            vstd::arithmetic::power2::lemma_pow2_strictly_increases(6, attempts as nat);
        }
        assert(pow2(attempts as nat) >= 64);
    }
}

/// The delay in milliseconds after this many failed attempts, as a number: five
/// seconds times two to their power, and five minutes at most.
pub open spec fn delay_ms(attempts: u32) -> nat {
    if 5 * pow2(attempts as nat) < 300 {
        5000 * pow2(attempts as nat)
    } else {
        300000
    }
}

/// An entry is ready exactly where it was never tried, or where as much time has
/// passed since as five seconds times two to the power of its failed attempts, or
/// five minutes where that is less.
pub proof fn law_readiness_follows_the_backoff(entry: OutboundEntry, now: u64)
    ensures
        entry.last_attempt is None ==> is_ready(entry, now),
        entry.last_attempt matches Some(last) ==> (is_ready(entry, now) <==> now - last >= 5000
            * pow2(entry.attempts as nat) || now - last >= 300000),
{
    lemma_backoff_is_a_power(entry.attempts);
}

/// Every further failure makes the wait longer until it meets its cap: an entry
/// with more failed attempts is ready no earlier than one with fewer, and below
/// the cap strictly later.
pub proof fn law_more_failures_wait_longer(
    fewer: OutboundEntry,
    more: OutboundEntry,
    last: u64,
    now: u64,
)
    requires
        fewer.last_attempt == Some(last),
        more.last_attempt == Some(last),
        fewer.attempts < more.attempts,
    ensures
        is_ready(more, now) ==> is_ready(fewer, now),
        fewer.attempts < 6 && now == last + delay_ms(fewer.attempts) ==> is_ready(fewer, now)
            && !is_ready(more, now),
{
    lemma_backoff_is_a_power(fewer.attempts);
    lemma_backoff_is_a_power(more.attempts);
}

/// An entry may be tried at `now`: it never was, or its delay has passed. The
/// delay counts in milliseconds.
pub open spec fn is_ready(entry: OutboundEntry, now: u64) -> bool {
    match entry.last_attempt {
        None => true,
        Some(last) => now >= last + 1000 * backoff(entry.attempts),
    }
}

/// `a` goes out before `b`: it was captured earlier, or at the same time and
/// queued earlier.
pub open spec fn precedes(a: Record, b: Record) -> bool {
    a.3 < b.3 || (a.3 == b.3 && a.0 < b.0)
}

/// No record stands behind one that it precedes.
pub open spec fn in_order(records: Seq<Record>) -> bool {
    forall|i: int, j: int|
        0 <= i <= j < records.len() ==> !precedes(#[trigger] records[j], #[trigger] records[i])
}

/// Every record precedes those behind it.
pub open spec fn strictly_in_order(records: Seq<Record>) -> bool {
    forall|i: int, j: int|
        0 <= i < j < records.len() ==> precedes(#[trigger] records[i], #[trigger] records[j])
}

/// The record goes out together with `mark`: captured at its time, with its number.
pub open spec fn stands_with(mark: Record) -> spec_fn(Record) -> bool {
    |r: Record| r.3 == mark.3 && r.0 == mark.0
}

/// The records that go out together with `mark`, in their order.
pub open spec fn standing_with(records: Seq<Record>, mark: Record) -> Seq<Record> {
    records.filter(stands_with(mark))
}

/// `sorted` holds `records` in the order of capture, those of one number and time
/// in their old order. There is exactly one such arrangement.
pub open spec fn in_capture_order(sorted: Seq<Record>, records: Seq<Record>) -> bool {
    &&& sorted.to_multiset() == records.to_multiset()
    &&& in_order(sorted)
    &&& forall|mark: Record| #[trigger] standing_with(sorted, mark) == standing_with(records, mark)
}

/// The place of a record in a queue: behind the last one that it does not precede.
pub open spec fn place(records: Seq<Record>, r: Record) -> int
    decreases records.len(),
{
    if records.len() == 0 {
        0
    } else if precedes(r, records.last()) {
        place(records.drop_last(), r)
    } else {
        records.len() as int
    }
}

/// The number behind the highest one in use.
pub open spec fn numbers_end(records: Seq<Record>) -> nat
    decreases records.len(),
{
    if records.len() == 0 {
        0
    } else if numbers_end(records.drop_last()) > records.last().0 {
        numbers_end(records.drop_last())
    } else {
        records.last().0 as nat + 1
    }
}

/// The records of a queue that gives out `next_id` next: they stand in the order
/// of capture, under different numbers, all below the next one.
pub open spec fn is_queue(records: Seq<Record>, next_id: u64) -> bool {
    &&& strictly_in_order(records)
    &&& forall|i: int, j: int|
        0 <= i < j < records.len() ==> (#[trigger] records[i]).0 != (#[trigger] records[j]).0
    &&& forall|i: int| 0 <= i < records.len() ==> (#[trigger] records[i]).0 < next_id
}

/// No record has the number `id`.
pub open spec fn is_unused(records: Seq<Record>, id: u64) -> bool {
    forall|i: int| 0 <= i < records.len() ==> (#[trigger] records[i]).0 != id
}

/// The queue holds none of the batch's numbers any more.
pub open spec fn has_left(batch: Seq<Record>, rest: Seq<Record>) -> bool {
    forall|i: int| 0 <= i < batch.len() ==> is_unused(rest, (#[trigger] batch[i]).0)
}

/// A new number is one that nothing has: all numbers in use are below the end, and
/// the end is one behind a number in use.
pub proof fn law_numbers_end_behind_the_highest(records: Seq<Record>, i: int)
    ensures
        0 <= i < records.len() ==> records[i].0 < numbers_end(records),
        records.len() == 0 ==> numbers_end(records) == 0,
        records.len() > 0 ==> exists|j: int|
            0 <= j < records.len() && (#[trigger] records[j]).0 + 1 == numbers_end(records),
    decreases records.len(),
{
    if records.len() > 0 {
        let front = records.drop_last();
        law_numbers_end_behind_the_highest(front, i);
        if numbers_end(front) > records.last().0 {
            let j = choose|j: int|
                0 <= j < front.len() && (#[trigger] front[j]).0 + 1 == numbers_end(front);
            assert(records[j].0 + 1 == numbers_end(records));
        } else {
            assert(records[records.len() - 1].0 + 1 == numbers_end(records));
        }
    }
}

proof fn lemma_place(records: Seq<Record>, r: Record)
    ensures
        0 <= place(records, r) <= records.len(),
        place(records, r) > 0 ==> !precedes(r, records[place(records, r) - 1]),
        forall|i: int|
            place(records, r) <= i < records.len() ==> precedes(r, #[trigger] records[i]),
    decreases records.len(),
{
    if records.len() > 0 && precedes(r, records.last()) {
        let front = records.drop_last();
        lemma_place(front, r);
        assert forall|i: int| place(records, r) <= i < records.len() implies precedes(
            r,
            #[trigger] records[i],
        ) by {
            if i < front.len() {
                assert(front[i] == records[i]);
            }
        }
    }
}

/// Whatever is put in its place leaves a queue in the order of capture, and one
/// whose number nothing else has leaves it strictly so.
pub proof fn law_placing_keeps_the_order(records: Seq<Record>, r: Record)
    requires
        in_order(records),
    ensures
        in_order(records.insert(place(records, r), r)),
        strictly_in_order(records) && is_unused(records, r.0) ==> strictly_in_order(
            records.insert(place(records, r), r),
        ),
{
    lemma_place(records, r);
    let p = place(records, r);
    let longer = records.insert(p, r);
    assert forall|i: int| 0 <= i < p implies !precedes(r, #[trigger] records[i]) by {
        assert(!precedes(records[p - 1], records[i]));
    }
    assert forall|i: int, j: int| 0 <= i <= j < longer.len() implies !precedes(
        #[trigger] longer[j],
        #[trigger] longer[i],
    ) by {
        let a = if i < p { i } else { i - 1 };
        let b = if j < p { j } else { j - 1 };
        if i != p && j != p {
            assert(longer[i] == records[a] && longer[j] == records[b]);
        } else if i == p && j != p {
            assert(longer[j] == records[b]);
        } else if i != p && j == p {
            assert(longer[i] == records[a]);
        }
    }
    if strictly_in_order(records) && is_unused(records, r.0) {
        assert forall|i: int, j: int| 0 <= i < j < longer.len() implies precedes(
            #[trigger] longer[i],
            #[trigger] longer[j],
        ) by {
            let a = if i < p { i } else { i - 1 };
            let b = if j < p { j } else { j - 1 };
            if i != p && j != p {
                assert(longer[i] == records[a] && longer[j] == records[b]);
            } else if i == p {
                assert(longer[j] == records[b]);
            } else {
                assert(longer[i] == records[a]);
            }
        }
    }
}

/// An entry that was captured no earlier than all others, and queued later, goes
/// behind them.
pub proof fn law_later_captures_go_last(records: Seq<Record>, added: Record)
    requires
        forall|i: int|
            0 <= i < records.len() ==> (#[trigger] records[i]).3 <= added.3 && records[i].0
                < added.0,
    ensures
        records.insert(place(records, added), added) == records.push(added),
{
    assert(records.insert(records.len() as int, added) =~= records.push(added));
}

/// An entry that leaves the queue for an attempt, fails and comes back stands
/// where it stood: no later capture has overtaken it.
pub proof fn law_a_failed_entry_keeps_its_place(records: Seq<Record>, i: int, kept: Record)
    requires
        strictly_in_order(records),
        0 <= i < records.len(),
        kept.0 == records[i].0,
        kept.3 == records[i].3,
    ensures
        records.remove(i).insert(place(records.remove(i), kept), kept) == records.update(i, kept),
{
    let rest = records.remove(i);
    lemma_place(rest, kept);
    let p = place(rest, kept);
    if p > i {
        assert(rest[p - 1] == records[p]);
        assert(precedes(records[i], records[p]));
    }
    if p < i {
        assert(rest[p] == records[p]);
        assert(precedes(records[p], records[i]));
        assert(precedes(kept, rest[p]));
    }
    assert(rest.insert(p, kept) =~= records.update(i, kept));
}

proof fn lemma_sort_step(sorted: Seq<Record>, p: int, r: Record, mark: Record)
    requires
        0 <= p <= sorted.len(),
        forall|i: int| 0 <= i < p ==> precedes(#[trigger] sorted[i], r),
    ensures
        standing_with(sorted.insert(p, r), mark) == standing_with(seq![r] + sorted, mark),
{
    let f = stands_with(mark);
    let a = sorted.subrange(0, p);
    let b = sorted.subrange(p, sorted.len() as int);
    assert(sorted =~= a + b);
    assert(sorted.insert(p, r) =~= a + (seq![r] + b));
    Seq::filter_distributes_over_add(a, seq![r] + b, f);
    Seq::filter_distributes_over_add(seq![r], b, f);
    Seq::filter_distributes_over_add(seq![r], a + b, f);
    Seq::filter_distributes_over_add(a, b, f);
    let left = a.filter(f);
    let own = seq![r].filter(f);
    let right = b.filter(f);
    assert(sorted.insert(p, r).filter(f) == left + (own + right));
    assert((seq![r] + sorted).filter(f) == own + (left + right));
    if f(r) {
        assert forall|i: int| 0 <= i < a.len() implies !f(#[trigger] a[i]) by {
            assert(a[i] == sorted[i]);
        }
        a.lemma_all_neg_filter_empty(f);
        assert(left =~= Seq::<Record>::empty());
    } else {
        seq![r].lemma_all_neg_filter_empty(f);
        assert(own =~= Seq::<Record>::empty());
    }
    assert(left + (own + right) =~= own + (left + right));
}

/// The first entry goes out before the second.
fn goes_before(a: &OutboundEntry, b: &OutboundEntry) -> (before: bool)
    ensures
        before == precedes(a@, b@),
{
    a.captured_at < b.captured_at || (a.captured_at == b.captured_at && a.id.0 < b.id.0)
}

/// Sorts entries by their time of capture, and those of one time by their number.
pub fn order_by_capture(entries: Vec<OutboundEntry>) -> (sorted: Vec<OutboundEntry>)
    ensures
        in_capture_order(models(sorted@), models(entries@)),
{
    let ghost given = models(entries@);
    let mut rest = entries;
    let mut sorted: Vec<OutboundEntry> = Vec::new();
    proof {
        assert(given.subrange(given.len() as int, given.len() as int) =~= Seq::<
            Record,
        >::empty());
        assert(models(sorted@) =~= Seq::<Record>::empty());
    }
    while rest.len() > 0
        invariant
            models(rest@) == given.subrange(0, rest@.len() as int),
            rest@.len() <= given.len(),
            in_capture_order(
                models(sorted@),
                given.subrange(rest@.len() as int, given.len() as int),
            ),
        decreases rest@.len(),
    {
        let ghost n = rest@.len();
        let ghost tail = given.subrange(n as int, given.len() as int);
        let ghost held = rest@;
        match rest.pop() {
            Some(e) => {
                let mut p: usize = 0;
                while p < sorted.len() && goes_before(&sorted[p], &e)
                    invariant
                        p <= sorted@.len(),
                        forall|i: int|
                            0 <= i < p ==> precedes(#[trigger] models(sorted@)[i], e@),
                    decreases sorted@.len() - p,
                {
                    p += 1;
                }
                let ghost before = models(sorted@);
                sorted.insert(p, e);
                proof {
                    let longer = given.subrange(n - 1, given.len() as int);
                    assert(models(held)[n - 1] == e@);
                    assert(longer =~= seq![e@] + tail);
                    assert(longer =~= tail.insert(0, e@));
                    assert(models(sorted@) =~= before.insert(p as int, e@));
                    assert(p < before.len() ==> !precedes(before[p as int], e@));
                    lemma_insert_in_order(before, p as int, e@);
                    assert forall|mark: Record| #[trigger]
                        standing_with(models(sorted@), mark) == standing_with(longer, mark) by {
                        lemma_sort_step(before, p as int, e@, mark);
                        let f = stands_with(mark);
                        Seq::filter_distributes_over_add(seq![e@], before, f);
                        Seq::filter_distributes_over_add(seq![e@], tail, f);
                        assert(standing_with(before, mark) == standing_with(tail, mark));
                    }
                    vstd::seq_lib::to_multiset_insert(before, p as int, e@);
                    vstd::seq_lib::to_multiset_insert(tail, 0, e@);
                    assert(models(rest@) =~= given.subrange(0, n - 1));
                }
            },
            None => {},
        }
    }
    assert(given.subrange(0, given.len() as int) =~= given);
    sorted
}

proof fn lemma_insert_in_order(records: Seq<Record>, p: int, r: Record)
    requires
        in_order(records),
        0 <= p <= records.len(),
        forall|i: int| 0 <= i < p ==> precedes(#[trigger] records[i], r),
        p < records.len() ==> !precedes(records[p], r),
    ensures
        in_order(records.insert(p, r)),
{
    let longer = records.insert(p, r);
    assert forall|i: int| p <= i < records.len() implies !precedes(#[trigger] records[i], r) by {
        assert(!precedes(records[i], records[p]));
    }
    assert forall|i: int, j: int| 0 <= i <= j < longer.len() implies !precedes(
        #[trigger] longer[j],
        #[trigger] longer[i],
    ) by {
        let a = if i < p { i } else { i - 1 };
        let b = if j < p { j } else { j - 1 };
        if i != p && j != p {
            assert(longer[i] == records[a] && longer[j] == records[b]);
        } else if i == p && j != p {
            assert(longer[j] == records[b]);
        } else if i != p && j == p {
            assert(longer[i] == records[a]);
        }
    }
}

/// Two arrangements of the same records in order are one, where no two stand together.
proof fn lemma_one_arrangement(x: Seq<Record>, y: Seq<Record>)
    requires
        x.to_multiset() == y.to_multiset(),
        strictly_in_order(y),
        in_order(x),
    ensures
        x == y,
    decreases y.len(),
{
    x.to_multiset_ensures();
    y.to_multiset_ensures();
    assert(x.len() == y.len());
    if y.len() > 0 {
        let a = x.last();
        let b = y.last();
        assert(x.contains(a));
        assert(y.to_multiset().count(a) > 0);
        assert(y.contains(a));
        assert(y.contains(b));
        assert(x.to_multiset().count(b) > 0);
        assert(x.contains(b));
        let i = choose|i: int| 0 <= i < x.len() && x[i] == b;
        let j = choose|j: int| 0 <= j < y.len() && y[j] == a;
        assert(!precedes(x[x.len() - 1], x[i]));
        assert(j == y.len() - 1);
        assert(x.drop_last() =~= x.remove(x.len() - 1));
        assert(y.drop_last() =~= y.remove(y.len() - 1));
        lemma_one_arrangement(x.drop_last(), y.drop_last());
        assert(x =~= x.drop_last().push(a));
        assert(y =~= y.drop_last().push(b));
    } else {
        assert(x =~= y);
    }
}

/// A queue that is rebuilt from its records, read in any order, is the queue
/// that was lost: the same entries in the same order.
pub proof fn law_recovery_restores_the_queue(
    lost: Seq<Record>,
    found: Seq<Record>,
    recovered: Seq<Record>,
)
    requires
        strictly_in_order(lost),
        found.to_multiset() == lost.to_multiset(),
        in_capture_order(recovered, found),
    ensures
        recovered == lost,
{
    lemma_one_arrangement(recovered, lost);
}

/// The record of an entry, as it is written to disk.
pub fn encode_record(entry: &OutboundEntry) -> (data: Vec<u8>)
    ensures
        data@ == wire::queued_bytes(entry@),
{
    wire::encode_queued(
        entry.id.0,
        &entry.topic,
        &entry.envelope_bytes,
        entry.captured_at,
        entry.attempts,
        entry.last_attempt,
    )
}

/// Reads a record; one that is corrupt is nothing. A record that was written
/// reads back as the entry.
pub fn decode_record(data: &[u8]) -> (entry: Option<OutboundEntry>)
    ensures
        match entry {
            Some(e) => wire::postcard_queued(usize::BITS as nat, data@) == Some(e@),
            None => wire::postcard_queued(usize::BITS as nat, data@) is None,
        },
        forall|r: Record|
            data@ == #[trigger] wire::queued_bytes(r) ==> entry is Some && entry->0@ == r,
{
    match wire::decode_queued(data) {
        Some((id, topic, envelope_bytes, captured_at, attempts, last_attempt)) => Some(
            OutboundEntry {
                id: OutboundEntryId(id),
                topic,
                envelope_bytes,
                captured_at,
                attempts,
                last_attempt,
            },
        ),
        None => None,
    }
}

/// A file in the queue's directory that could be read.
#[derive(Debug)]
pub struct RecordFile {
    pub name: String,
    pub contents: Vec<u8>,
}

/// The record that a file holds: its name has the extension `wal`, and its
/// contents can be decoded.
pub open spec fn record_in(file: RecordFile) -> Option<Record> {
    if is_record_name(file.name@) {
        wire::postcard_queued(usize::BITS as nat, file.contents@)
    } else {
        None
    }
}

/// The records that the files hold, in the order of the files.
pub open spec fn records_in(files: Seq<RecordFile>) -> Seq<Record>
    decreases files.len(),
{
    if files.len() == 0 {
        Seq::empty()
    } else {
        match record_in(files.last()) {
            Some(r) => records_in(files.drop_last()).push(r),
            None => records_in(files.drop_last()),
        }
    }
}

/// Every record file that can be decoded is read, in the order of the files: one
/// whose name ends in the extension of records, with something before it.
pub proof fn law_every_sound_record_is_read(files: Seq<RecordFile>)
    ensures
        ({
            let sound = |f: RecordFile|
                f.name@.len() > 4 && f.name@.subrange(f.name@.len() - 4, f.name@.len() as int)
                    == seq!['.', 'w', 'a', 'l'] && wire::postcard_queued(
                    usize::BITS as nat,
                    f.contents@,
                ) is Some;
            records_in(files) == files.filter(sound).map_values(
                |f: RecordFile| wire::postcard_queued(usize::BITS as nat, f.contents@)->0,
            )
        }),
    decreases files.len(),
{
    let sound = |f: RecordFile|
        f.name@.len() > 4 && f.name@.subrange(f.name@.len() - 4, f.name@.len() as int) == seq![
            '.',
            'w',
            'a',
            'l',
        ] && wire::postcard_queued(usize::BITS as nat, f.contents@) is Some;
    let record = |f: RecordFile| wire::postcard_queued(usize::BITS as nat, f.contents@)->0;
    reveal(Seq::filter);
    reveal_strlit(".wal");
    assert(".wal"@ =~= seq!['.', 'w', 'a', 'l']);
    if files.len() > 0 {
        law_every_sound_record_is_read(files.drop_last());
    }
    assert(records_in(files) =~= files.filter(sound).map_values(record));
}

/// Reads the records that the files hold. Other files, and records that are
/// corrupt, are passed over.
pub fn read_records(files: &Vec<RecordFile>) -> (entries: Vec<OutboundEntry>)
    ensures
        models(entries@) == records_in(files@),
{
    let mut entries: Vec<OutboundEntry> = Vec::new();
    let mut i: usize = 0;
    assert(files@.subrange(0, 0) =~= Seq::<RecordFile>::empty());
    assert(models(entries@) =~= Seq::<Record>::empty());
    while i < files.len()
        invariant
            i <= files@.len(),
            models(entries@) == records_in(files@.subrange(0, i as int)),
        decreases files@.len() - i,
    {
        let ghost before = entries@;
        proof {
            let longer = files@.subrange(0, i + 1);
            assert(longer.drop_last() =~= files@.subrange(0, i as int));
            assert(longer.last() == files@[i as int]);
        }
        if is_record_file(files[i].name.as_str()) {
            match decode_record(files[i].contents.as_slice()) {
                Some(entry) => {
                    entries.push(entry);
                    assert(models(entries@) =~= models(before).push(entry@));
                },
                None => {},
            }
        }
        i += 1;
    }
    assert(files@.subrange(0, i as int) =~= files@);
    entries
}

/// The entries that are not ready, in their order.
pub open spec fn waiting(entries: Seq<OutboundEntry>, now: u64) -> Seq<OutboundEntry> {
    entries.filter(|e: OutboundEntry| !is_ready(e, now))
}

/// The entries that are ready, in their order.
pub open spec fn ready(entries: Seq<OutboundEntry>, now: u64) -> Seq<OutboundEntry> {
    entries.filter(|e: OutboundEntry| is_ready(e, now))
}

proof fn lemma_round_step(entry: OutboundEntry, rest: Seq<OutboundEntry>, now: u64)
    ensures
        ready(seq![entry] + rest, now) == if is_ready(entry, now) {
            seq![entry] + ready(rest, now)
        } else {
            ready(rest, now)
        },
        waiting(seq![entry] + rest, now) == if is_ready(entry, now) {
            waiting(rest, now)
        } else {
            seq![entry] + waiting(rest, now)
        },
{
    let r = |e: OutboundEntry| is_ready(e, now);
    let w = |e: OutboundEntry| !is_ready(e, now);
    Seq::filter_distributes_over_add(seq![entry], rest, r);
    Seq::filter_distributes_over_add(seq![entry], rest, w);
    reveal_with_fuel(Seq::filter, 2);
    assert(seq![entry].drop_last() =~= Seq::<OutboundEntry>::empty());
    assert(Seq::<OutboundEntry>::empty().push(entry) =~= seq![entry]);
    assert(Seq::<OutboundEntry>::empty() + ready(rest, now) =~= ready(rest, now));
    assert(Seq::<OutboundEntry>::empty() + waiting(rest, now) =~= waiting(rest, now));
}

proof fn lemma_bytes_front(entry: OutboundEntry, rest: Seq<OutboundEntry>)
    ensures
        bytes_of(seq![entry] + rest) == entry.envelope_bytes@.len() + bytes_of(rest),
{
    lemma_bytes_add(seq![entry], rest);
    assert(seq![entry].drop_last() =~= Seq::<OutboundEntry>::empty());
    reveal_with_fuel(bytes_of, 2);
}

proof fn lemma_due_entries(entries: Seq<OutboundEntry>, now: u64)
    ensures
        ({
            let due = |e: OutboundEntry|
                e.last_attempt is None || now - e.last_attempt->0 >= delay_ms(e.attempts);
            &&& ready(entries, now) == entries.filter(due)
            &&& waiting(entries, now) == entries.filter(|e: OutboundEntry| !due(e))
        }),
    decreases entries.len(),
{
    reveal(Seq::filter);
    if entries.len() > 0 {
        lemma_due_entries(entries.drop_last(), now);
        law_readiness_follows_the_backoff(entries.last(), now);
    }
}

/// Every entry is either ready or waits, and no byte is lost between the two.
pub proof fn law_a_round_keeps_every_byte(entries: Seq<OutboundEntry>, now: u64)
    ensures
        ready(entries, now).len() + waiting(entries, now).len() == entries.len(),
        bytes_of(ready(entries, now)) + bytes_of(waiting(entries, now)) == bytes_of(entries),
    decreases entries.len(),
{
    reveal(Seq::filter);
    if entries.len() > 0 {
        let r = |e: OutboundEntry| is_ready(e, now);
        let w = |e: OutboundEntry| !is_ready(e, now);
        law_a_round_keeps_every_byte(entries.drop_last(), now);
        let front = entries.drop_last();
        if is_ready(entries.last(), now) {
            assert(ready(entries, now) =~= ready(front, now).push(entries.last()));
            assert(waiting(entries, now) =~= waiting(front, now));
            assert(ready(entries, now).drop_last() =~= ready(front, now));
        } else {
            assert(waiting(entries, now) =~= waiting(front, now).push(entries.last()));
            assert(ready(entries, now) =~= ready(front, now));
            assert(waiting(entries, now).drop_last() =~= waiting(front, now));
        }
    }
}

proof fn lemma_kept_entries_are_a_queue(
    head: Seq<OutboundEntry>,
    keep: spec_fn(OutboundEntry) -> bool,
    tail: Seq<OutboundEntry>,
    next_id: u64,
)
    requires
        is_queue(models(head + tail), next_id),
    ensures
        is_queue(models(head.filter(keep) + tail), next_id),
    decreases head.len(),
{
    reveal(Seq::filter);
    if head.len() == 0 {
        assert(head.filter(keep) + tail =~= head + tail);
    } else {
        let front = head.drop_last();
        if keep(head.last()) {
            let longer = seq![head.last()] + tail;
            assert(front + longer =~= head + tail);
            assert(head.filter(keep) + tail =~= front.filter(keep) + longer);
            lemma_kept_entries_are_a_queue(front, keep, longer, next_id);
        } else {
            let all = models(head + tail);
            let less = models(front + tail);
            assert(less =~= all.remove(front.len() as int));
            lemma_kept_entries_are_a_queue(front, keep, tail, next_id);
        }
    }
}

proof fn lemma_ready_entries_have_left(
    head: Seq<OutboundEntry>,
    tail: Seq<OutboundEntry>,
    now: u64,
    next_id: u64,
)
    requires
        is_queue(models(head + tail), next_id),
    ensures
        has_left(models(ready(head, now)), models(waiting(head, now) + tail)),
{
    let due = |e: OutboundEntry| is_ready(e, now);
    let waits = |e: OutboundEntry| !is_ready(e, now);
    let all = head + tail;
    let batch = ready(head, now);
    let rest = waiting(head, now) + tail;
    assert forall|i: int, j: int| 0 <= i < batch.len() && 0 <= j < rest.len() implies (
    #[trigger] models(batch)[i]).0 != (#[trigger] models(rest)[j]).0 by {
        assert(batch.contains(batch[i]));
        head.lemma_filter_contains_rev(due, batch[i]);
        head.lemma_filter_pred(due, i);
        let a = choose|a: int| 0 <= a < head.len() && head[a] == batch[i];
        assert(models(all)[a] == batch[i]@);
        if j < waiting(head, now).len() {
            let w = waiting(head, now)[j];
            assert(waiting(head, now).contains(w));
            head.lemma_filter_contains_rev(waits, w);
            head.lemma_filter_pred(waits, j);
            let b = choose|b: int| 0 <= b < head.len() && head[b] == w;
            assert(models(all)[b] == w@);
            assert(a < b || b < a);
        } else {
            let b = j - waiting(head, now).len() + head.len();
            assert(models(all)[b] == rest[j]@);
        }
    }
}

impl OutboundQueue {
    /// The entries stand in the order of capture, under numbers that were given out.
    pub open spec fn is_ordered(&self) -> bool {
        is_queue(models(self.entries@), self.next_id)
    }

    /// The byte count is exact.
    pub open spec fn is_accounted(&self) -> bool {
        self.total_bytes == bytes_of(self.entries@)
    }

    /// `queue` is what is rebuilt from the records found on disk.
    pub open spec fn is_recovered(wal_dir: String, records: Seq<Record>, queue: Self) -> bool {
        &&& queue.wal_dir == wal_dir
        &&& in_capture_order(models(queue.entries@), records)
        &&& queue.total_bytes == capped_sum(bytes_of(queue.entries@), 0)
        &&& queue.next_id == capped_sum(numbers_end(models(queue.entries@)), 0)
    }

    /// Every record that was found waits in the recovered queue, once, an earlier capture
    /// before a later one; and the next number is above all that are in use.
    pub proof fn law_recovered_records_wait_in_the_order_of_capture(
        wal_dir: String,
        records: Seq<Record>,
        queue: Self,
        i: int,
        j: int,
    )
        requires
            Self::is_recovered(wal_dir, records, queue),
            0 <= i < j < queue.entries@.len(),
        ensures
            queue.entries@.len() == records.len(),
            models(queue.entries@).to_multiset() == records.to_multiset(),
            queue.entries@[i].captured_at <= queue.entries@[j].captured_at,
            queue.entries@[i].captured_at == queue.entries@[j].captured_at
                ==> queue.entries@[i].id.0 <= queue.entries@[j].id.0,
            queue.entries@[i].id.0 < u64::MAX ==> queue.entries@[i].id.0 < queue.next_id,
            queue.entries@[j].id.0 < u64::MAX ==> queue.entries@[j].id.0 < queue.next_id,
            bytes_of(queue.entries@) <= u64::MAX ==> queue.total_bytes == bytes_of(queue.entries@),
    {
        let all = models(queue.entries@);
        broadcast use vstd::seq_lib::group_to_multiset_ensures;

        assert(all.to_multiset().len() == all.len());
        assert(records.to_multiset().len() == records.len());
        assert(all.len() == queue.entries@.len());
        assert(all[i] == queue.entries@[i]@);
        assert(all[j] == queue.entries@[j]@);
        assert(!precedes(all[j], all[i]));
        law_numbers_end_behind_the_highest(all, i);
        law_numbers_end_behind_the_highest(all, j);
    }

    /// Rebuilds the queue from the records found on disk.
    pub fn recover(wal_dir: String, records: Vec<OutboundEntry>) -> (queue: Self)
        ensures
            Self::is_recovered(wal_dir, models(records@), queue),
            bytes_of(queue.entries@) <= u64::MAX ==> queue.is_accounted(),
    {
        let entries = order_by_capture(records);
        let mut next_id: u64 = 0;
        let mut total: u64 = 0;
        let mut i: usize = 0;
        assert(entries@.subrange(0, 0) =~= Seq::<OutboundEntry>::empty());
        while i < entries.len()
            invariant
                i <= entries@.len(),
                total == capped_sum(bytes_of(entries@.subrange(0, i as int)), 0),
                next_id == capped_sum(numbers_end(models(entries@.subrange(0, i as int))), 0),
            decreases entries@.len() - i,
        {
            proof {
                let longer = entries@.subrange(0, i + 1);
                assert(longer.drop_last() =~= entries@.subrange(0, i as int));
                assert(longer.last() == entries@[i as int]);
                assert(models(longer).drop_last() =~= models(longer.drop_last()));
            }
            let id: u64 = entries[i].id.0;
            if id >= next_id {
                next_id = id.saturating_add(1);
            }
            total = total.saturating_add(entries[i].envelope_bytes.len() as u64);
            i += 1;
        }
        assert(entries@.subrange(0, i as int) =~= entries@);
        OutboundQueue { wal_dir, entries, total_bytes: total, next_id }
    }

    /// What the numbering of a payload does.
    pub open spec fn numbered(
        before: Self,
        after: Self,
        topic: String,
        envelope_bytes: Vec<u8>,
        captured_at: u64,
        entry: Result<OutboundEntry, QueueFull>,
    ) -> bool {
        &&& entry is Err <==> before.total_bytes + envelope_bytes@.len() > MAX_QUEUE_BYTES
        &&& entry is Err ==> after == before
        &&& entry is Ok ==> {
            &&& entry->Ok_0 == (OutboundEntry {
                id: OutboundEntryId(before.next_id),
                topic,
                envelope_bytes,
                captured_at,
                attempts: 0,
                last_attempt: None,
            })
            &&& after == (OutboundQueue {
                next_id: capped_sum(before.next_id as nat, 1),
                ..before
            })
        }
    }

    /// A payload is taken exactly where it and all that waits fit sixteen mebibytes;
    /// it is kept as it is, not tried yet, under a number that nothing in the queue
    /// has and the next payload will not get.
    pub proof fn law_payloads_are_taken_while_there_is_room(
        before: Self,
        between: Self,
        after: Self,
        topic: String,
        envelope_bytes: Vec<u8>,
        captured_at: u64,
        entry: Result<OutboundEntry, QueueFull>,
        later_topic: String,
        later_bytes: Vec<u8>,
        later_at: u64,
        later: Result<OutboundEntry, QueueFull>,
    )
        requires
            before.is_ordered(),
            before.next_id < u64::MAX,
            Self::numbered(before, between, topic, envelope_bytes, captured_at, entry),
            Self::numbered(between, after, later_topic, later_bytes, later_at, later),
        ensures
            entry is Ok <==> before.total_bytes + envelope_bytes@.len() <= 16 * 1024 * 1024,
            entry matches Ok(e) ==> {
                &&& e.topic@ == topic@
                &&& e.envelope_bytes@ == envelope_bytes@
                &&& e.captured_at == captured_at
                &&& e.attempts == 0
                &&& e.last_attempt is None
                &&& is_unused(models(before.entries@), e.id.0)
                &&& later matches Ok(l) ==> l.id.0 == e.id.0 + 1
            },
            between.entries == before.entries,
            between.total_bytes == before.total_bytes,
    {
    }

    /// Numbers a payload that could not be published, unless the queue is full.
    /// The entry joins the queue once its record is on disk.
    pub fn enqueue(&mut self, topic: String, envelope_bytes: Vec<u8>, captured_at: u64) -> (entry:
        Result<OutboundEntry, QueueFull>)
        ensures
            Self::numbered(*old(self), *final(self), topic, envelope_bytes, captured_at, entry),
            old(self).is_ordered() ==> final(self).is_ordered(),
    {
        let byte_len: u64 = envelope_bytes.len() as u64;
        if self.total_bytes.saturating_add(byte_len) > MAX_QUEUE_BYTES {
            return Err(QueueFull);
        }
        let id = OutboundEntryId(self.next_id);
        self.next_id = self.next_id.saturating_add(1);
        Ok(
            OutboundEntry {
                id,
                topic,
                envelope_bytes,
                captured_at,
                attempts: 0,
                last_attempt: None,
            },
        )
    }

    /// What the placing of an entry does.
    pub open spec fn is_placed(before: Self, after: Self, entry: OutboundEntry) -> bool {
        &&& after == (OutboundQueue {
            entries: after.entries,
            total_bytes: capped_sum(before.total_bytes as nat, entry.envelope_bytes@.len()),
            ..before
        })
        &&& after.entries@ == before.entries@.insert(place(models(before.entries@), entry@), entry)
    }

    /// A placed entry waits, counted in full, and so does every other that waited, in the
    /// old order; right before it stands none that was captured later, and behind it none
    /// that was captured earlier.
    pub proof fn law_a_placed_entry_joins_the_queue(
        before: Self,
        after: Self,
        entry: OutboundEntry,
    ) -> (p: int)
        requires
            Self::is_placed(before, after, entry),
            before.total_bytes + entry.envelope_bytes@.len() <= u64::MAX,
        ensures
            0 <= p < after.entries@.len(),
            after.entries@[p] == entry,
            after.entries@.remove(p) == before.entries@,
            p > 0 ==> after.entries@[p - 1].captured_at <= entry.captured_at,
            forall|i: int|
                p < i < after.entries@.len() ==> (#[trigger] after.entries@[i]).captured_at
                    >= entry.captured_at,
            after.total_bytes == before.total_bytes + entry.envelope_bytes@.len(),
            after.next_id == before.next_id,
    {
        let records = models(before.entries@);
        let p = place(records, entry@);
        lemma_place(records, entry@);
        assert(after.entries@.remove(p) =~= before.entries@);
        if p > 0 {
            assert(records[p - 1] == before.entries@[p - 1]@);
        }
        assert forall|i: int| p < i < after.entries@.len() implies (
        #[trigger] after.entries@[i]).captured_at >= entry.captured_at by {
            assert(after.entries@[i] == before.entries@[i - 1]);
            assert(records[i - 1] == before.entries@[i - 1]@);
        }
        p
    }

    /// Puts an entry whose record is on disk in its place: behind the entries that
    /// were captured before it.
    pub fn enqueue_stored(&mut self, entry: OutboundEntry)
        ensures
            Self::is_placed(*old(self), *final(self), entry),
            old(self).is_ordered() && entry.id.0 < old(self).next_id && is_unused(
                models(old(self).entries@),
                entry.id.0,
            ) ==> final(self).is_ordered(),
            old(self).is_accounted() && bytes_of(old(self).entries@)
                + entry.envelope_bytes@.len() <= u64::MAX ==> final(self).is_accounted(),
    {
        let byte_len: u64 = entry.envelope_bytes.len() as u64;
        let ghost held = self.entries@;
        let ghost records = models(held);
        let mut p: usize = self.entries.len();
        assert(records.subrange(0, p as int) =~= records);
        while p > 0 && goes_before(&entry, &self.entries[p - 1])
            invariant
                p <= held.len(),
                self.entries@ == held,
                records == models(held),
                place(records.subrange(0, p as int), entry@) == place(records, entry@),
            decreases p,
        {
            assert(records.subrange(0, p as int).drop_last() =~= records.subrange(0, p - 1));
            p -= 1;
        }
        proof {
            let front = held.subrange(0, p as int);
            let back = held.subrange(p as int, held.len() as int);
            assert(held =~= front + back);
            assert(held.insert(p as int, entry) =~= front + (seq![entry] + back));
            lemma_bytes_add(front, back);
            lemma_bytes_add(front, seq![entry] + back);
            lemma_bytes_front(entry, back);
            assert(models(held.insert(p as int, entry)) =~= records.insert(p as int, entry@));
            if is_queue(records, self.next_id) {
                law_placing_keeps_the_order(records, entry@);
            }
        }
        self.entries.insert(p, entry);
        self.total_bytes = self.total_bytes.saturating_add(byte_len);
    }

    /// `batch` are the first entries, and `rest` the others.
    pub open spec fn is_drained(
        all: Seq<OutboundEntry>,
        rest: Seq<OutboundEntry>,
        batch_size: usize,
        batch: Seq<OutboundEntry>,
    ) -> bool {
        &&& batch + rest == all
        &&& batch.len() == if batch_size <= all.len() {
            batch_size as nat
        } else {
            all.len()
        }
    }

    /// A batch is the front of the queue, as long as was asked for or as there is,
    /// and it goes out in the order of capture: nothing in it was captured after
    /// anything that is left, and of two captures at one time the earlier queued
    /// goes first.
    pub proof fn law_batches_leave_in_the_order_of_capture(
        before: Self,
        after: Self,
        batch_size: usize,
        batch: Seq<OutboundEntry>,
    )
        requires
            before.is_ordered(),
            Self::is_drained(before.entries@, after.entries@, batch_size, batch),
        ensures
            batch == before.entries@.take(
                vstd::math::min(batch_size as int, before.entries@.len() as int),
            ),
            after.entries@ == before.entries@.skip(batch.len() as int),
            forall|i: int, j: int|
                0 <= i < j < batch.len() ==> (#[trigger] batch[i]).captured_at <= (
                #[trigger] batch[j]).captured_at && (batch[i].captured_at == batch[j].captured_at
                    ==> batch[i].id.0 < batch[j].id.0),
            forall|i: int, j: int|
                0 <= i < batch.len() && 0 <= j < after.entries@.len() ==> (
                #[trigger] batch[i]).captured_at <= (#[trigger] after.entries@[j]).captured_at,
    {
        let all = before.entries@;
        let n = batch.len() as int;
        assert(batch =~= all.take(n));
        assert(after.entries@ =~= all.skip(n));
        assert forall|i: int, j: int| 0 <= i < j < all.len() implies (
        #[trigger] all[i]).captured_at <= (#[trigger] all[j]).captured_at && (
        all[i].captured_at == all[j].captured_at ==> all[i].id.0 < all[j].id.0) by {
            assert(precedes(models(all)[i], models(all)[j]));
        }
        assert forall|i: int, j: int| 0 <= i < j < batch.len() implies (
        #[trigger] batch[i]).captured_at <= (#[trigger] batch[j]).captured_at && (
        batch[i].captured_at == batch[j].captured_at ==> batch[i].id.0 < batch[j].id.0) by {
            assert(batch[i] == all[i] && batch[j] == all[j]);
        }
        assert forall|i: int, j: int| 0 <= i < batch.len() && 0 <= j < after.entries@.len() implies (
        #[trigger] batch[i]).captured_at <= (#[trigger] after.entries@[j]).captured_at by {
            assert(batch[i] == all[i] && after.entries@[j] == all[n + j]);
        }
    }

    /// Takes up to `batch_size` entries from the front.
    pub fn drain_batch(&mut self, batch_size: usize) -> (batch: Vec<OutboundEntry>)
        ensures
            Self::is_drained(old(self).entries@, final(self).entries@, batch_size, batch@),
            final(self).wal_dir == old(self).wal_dir,
            final(self).next_id == old(self).next_id,
            final(self).total_bytes == if old(self).total_bytes >= bytes_of(batch@) {
                old(self).total_bytes - bytes_of(batch@)
            } else {
                0
            },
            old(self).is_accounted() ==> final(self).is_accounted(),
            old(self).is_ordered() ==> final(self).is_ordered() && is_queue(
                models(batch@),
                old(self).next_id,
            ) && has_left(models(batch@), models(final(self).entries@)),
    {
        let ghost all = self.entries@;
        let mut batch: Vec<OutboundEntry> = Vec::new();
        while batch.len() < batch_size && self.entries.len() > 0
            invariant
                batch@ + self.entries@ == all,
                batch@.len() <= batch_size,
                self.wal_dir == old(self).wal_dir,
                self.next_id == old(self).next_id,
                self.total_bytes == if old(self).total_bytes >= bytes_of(batch@) {
                    old(self).total_bytes - bytes_of(batch@)
                } else {
                    0
                },
            decreases self.entries@.len(),
        {
            let ghost taken = batch@;
            let ghost left = self.entries@;
            let entry = self.entries.remove(0);
            let byte_len: u64 = entry.envelope_bytes.len() as u64;
            self.total_bytes = self.total_bytes.saturating_sub(byte_len);
            batch.push(entry);
            proof {
                assert(batch@.drop_last() =~= taken);
                assert(batch@ + self.entries@ =~= taken + left);
            }
        }
        proof {
            lemma_bytes_add(batch@, self.entries@);
            let n = batch@.len() as int;
            assert(models(batch@) =~= models(all).subrange(0, n));
            assert(models(self.entries@) =~= models(all).subrange(n, all.len() as int));
        }
        batch
    }

    /// What is left of an entry after a failed attempt.
    pub open spec fn is_after_failure(
        entry: OutboundEntry,
        now: u64,
        kept: Option<OutboundEntry>,
    ) -> bool {
        &&& kept is None <==> entry.attempts + 1 >= MAX_ATTEMPTS
        &&& kept is Some ==> kept->0 == (OutboundEntry {
            attempts: (entry.attempts + 1) as u32,
            last_attempt: Some(now),
            ..entry
        })
    }

    /// The entry after each of a run of failed attempts, as long as it is kept.
    pub open spec fn is_run_of_failures(states: Seq<OutboundEntry>, times: Seq<u64>) -> bool {
        &&& states.len() == times.len() + 1
        &&& forall|i: int|
            0 <= i < times.len() ==> Self::is_after_failure(
                states[i],
                #[trigger] times[i],
                Some(states[i + 1]),
            )
    }

    /// Evidence is abandoned at its tenth failed attempt and not before: an entry
    /// that was never tried outlives any nine failures, and the next ends it. Until
    /// then nothing of it changes but the count and the time of the last attempt.
    pub proof fn law_evidence_has_ten_attempts(
        states: Seq<OutboundEntry>,
        times: Seq<u64>,
        now: u64,
        kept: Option<OutboundEntry>,
    )
        requires
            Self::is_run_of_failures(states, times),
            states[0].attempts == 0,
            Self::is_after_failure(states.last(), now, kept),
        ensures
            times.len() <= 9,
            states.last().attempts == times.len(),
            states.last().id == states[0].id,
            states.last().topic == states[0].topic,
            states.last().envelope_bytes == states[0].envelope_bytes,
            states.last().captured_at == states[0].captured_at,
            times.len() > 0 ==> states.last().last_attempt == Some(times.last()),
            kept is None <==> times.len() == 9,
        decreases times.len(),
    {
        if times.len() > 0 {
            let n = times.len() - 1;
            let earlier = states.drop_last();
            let before = times.drop_last();
            assert forall|i: int| 0 <= i < before.len() implies Self::is_after_failure(
                earlier[i],
                #[trigger] before[i],
                Some(earlier[i + 1]),
            ) by {
                assert(before[i] == times[i]);
            }
            assert(times[n] == times.last());
            assert(earlier.last() == states[n]);
            Self::law_evidence_has_ten_attempts(earlier, before, times[n], Some(states.last()));
        }
    }

    /// Counts a failed attempt. An entry that has failed too often is abandoned:
    /// its record goes. Any other is given back; once its new record is on disk
    /// it takes its place in the queue again.
    pub fn requeue_failed(entry: OutboundEntry, now: u64) -> (kept: Option<OutboundEntry>)
        ensures
            Self::is_after_failure(entry, now, kept),
    {
        let attempts: u32 = entry.attempts.saturating_add(1);
        if attempts >= MAX_ATTEMPTS {
            return None;
        }
        Some(
            OutboundEntry {
                id: entry.id,
                topic: entry.topic,
                envelope_bytes: entry.envelope_bytes,
                captured_at: entry.captured_at,
                attempts,
                last_attempt: Some(now),
            },
        )
    }

    /// What the return of an entry does.
    pub open spec fn is_at_front(before: Self, after: Self, entry: OutboundEntry) -> bool {
        &&& after == (OutboundQueue {
            entries: after.entries,
            total_bytes: capped_sum(before.total_bytes as nat, entry.envelope_bytes@.len()),
            ..before
        })
        &&& after.entries@ == seq![entry] + before.entries@
    }

    /// An entry that is put back is the next to go, as it was, and all others wait behind
    /// it as before.
    pub proof fn law_a_returned_entry_is_next(before: Self, after: Self, entry: OutboundEntry)
        requires
            Self::is_at_front(before, after, entry),
            before.total_bytes + entry.envelope_bytes@.len() <= u64::MAX,
        ensures
            after.entries@.len() == before.entries@.len() + 1,
            after.entries@[0] == entry,
            after.entries@.skip(1) == before.entries@,
            after.total_bytes == before.total_bytes + entry.envelope_bytes@.len(),
            after.next_id == before.next_id,
    {
        assert(after.entries@.skip(1) =~= before.entries@);
    }

    /// Puts an entry back at the front, as it was.
    pub fn requeue_unchanged(&mut self, entry: OutboundEntry)
        ensures
            Self::is_at_front(*old(self), *final(self), entry),
            old(self).is_accounted() && bytes_of(old(self).entries@)
                + entry.envelope_bytes@.len() <= u64::MAX ==> final(self).is_accounted(),
    {
        let byte_len: u64 = entry.envelope_bytes.len() as u64;
        self.entries.insert(0, entry);
        self.total_bytes = self.total_bytes.saturating_add(byte_len);
        proof {
            assert(self.entries@ =~= seq![entry] + old(self).entries@);
            lemma_bytes_front(entry, old(self).entries@);
        }
    }

    /// The path of the record of the entry with this number.
    pub open spec fn record_path(wal_dir: Seq<char>, id: u64) -> Seq<char> {
        paths::path_of(wal_dir, text::digits(id as nat) + ".wal"@)
    }

    /// Every entry has a record file of its own, which is found again as a record.
    pub proof fn law_every_entry_has_its_own_file(wal_dir: Seq<char>, a: u64, b: u64)
        ensures
            Self::record_path(wal_dir, a) == Self::record_path(wal_dir, b) ==> a == b,
            is_record_name(text::digits(a as nat) + ".wal"@),
    {
        reveal_strlit(".wal");
        reveal_strlit("/");
        let (x, y) = (text::digits(a as nat), text::digits(b as nat));
        text::lemma_digits_stand_first(a as nat);
        text::lemma_digits_stand_first(b as nat);
        let (p, q) = (x + ".wal"@, y + ".wal"@);
        assert(p[0] == x[0] && q[0] == y[0]);
        assert(p.subrange(p.len() - 4, p.len() as int) =~= ".wal"@);
        if Self::record_path(wal_dir, a) == Self::record_path(wal_dir, b) {
            let whole = Self::record_path(wal_dir, a);
            assert(whole.subrange(whole.len() - p.len(), whole.len() as int) =~= p);
            assert(whole.subrange(whole.len() - q.len(), whole.len() as int) =~= q);
            assert(p.len() == q.len());
            assert(p == q);
            assert(x =~= p.subrange(0, p.len() - 4));
            assert(y =~= q.subrange(0, q.len() - 4));
            text::lemma_digits_injective(a as nat, b as nat);
        }
    }

    /// The file that holds the record of an entry.
    pub fn entry_path(&self, id: OutboundEntryId) -> (path: String)
        ensures
            path@ == Self::record_path(self.wal_dir@, id.0),
    {
        let number = text::decimal(id.0);
        let name = text::join(number.as_str(), ".wal");
        paths::join_path(self.wal_dir.as_str(), name.as_str())
    }

    pub fn len(&self) -> (n: usize)
        ensures
            n == self.entries@.len(),
    {
        self.entries.len()
    }

    pub fn is_empty(&self) -> (b: bool)
        ensures
            b == (self.entries@.len() == 0),
    {
        self.entries.len() == 0
    }

    pub fn total_bytes(&self) -> (n: u64)
        ensures
            n == self.total_bytes,
    {
        self.total_bytes
    }

    /// The delay before the next attempt, in seconds.
    pub fn backoff_delay(attempts: u32) -> (secs: u64)
        ensures
            secs == backoff(attempts),
    {
        let mut secs: u64 = 5;
        let mut doubled: u32 = 0;
        while doubled < attempts && secs < 300
            invariant
                doubled <= attempts,
                secs == backoff(doubled),
            decreases 300 - secs,
        {
            secs = if secs < 150 {
                2 * secs
            } else {
                300
            };
            doubled += 1;
        }
        secs
    }

    /// The entry may be tried again.
    pub fn is_due(entry: &OutboundEntry, now: u64) -> (b: bool)
        ensures
            b == is_ready(*entry, now),
    {
        match entry.last_attempt {
            None => true,
            Some(last) => {
                let delay: u64 = Self::backoff_delay(entry.attempts) * 1000;
                now >= last && now - last >= delay
            },
        }
    }

    /// What a round of retries takes out of the queue, and what it leaves.
    pub open spec fn is_round(
        all: Seq<OutboundEntry>,
        rest: Seq<OutboundEntry>,
        batch_size: usize,
        now: u64,
        batch: Seq<OutboundEntry>,
    ) -> bool {
        let n = if batch_size <= all.len() {
            batch_size as int
        } else {
            all.len() as int
        };
        &&& batch == ready(all.subrange(0, n), now)
        &&& rest == waiting(all.subrange(0, n), now) + all.subrange(n, all.len() as int)
    }

    /// A round takes out exactly the entries among the first of the queue whose time
    /// has come, and keeps all others, both in their order.
    pub proof fn law_a_round_takes_what_is_due(
        all: Seq<OutboundEntry>,
        rest: Seq<OutboundEntry>,
        batch_size: usize,
        now: u64,
        batch: Seq<OutboundEntry>,
    )
        requires
            Self::is_round(all, rest, batch_size, now, batch),
        ensures
            ({
                let due = |e: OutboundEntry|
                    e.last_attempt is None || now - e.last_attempt->0 >= delay_ms(e.attempts);
                let n = vstd::math::min(batch_size as int, all.len() as int);
                &&& batch == all.subrange(0, n).filter(due)
                &&& rest == all.subrange(0, n).filter(|e: OutboundEntry| !due(e)) + all.subrange(
                    n,
                    all.len() as int,
                )
                &&& batch.len() + rest.len() == all.len()
            }),
    {
        let n = vstd::math::min(batch_size as int, all.len() as int);
        lemma_due_entries(all.subrange(0, n), now);
        law_a_round_keeps_every_byte(all.subrange(0, n), now);
    }

    /// Starts a round of retries: of the first `batch_size` entries, those that
    /// are ready leave the queue, and the others keep their place at its front.
    pub fn take_ready(&mut self, batch_size: usize, now: u64) -> (batch: Vec<OutboundEntry>)
        requires
            bytes_of(old(self).entries@) <= u64::MAX,
            old(self).is_accounted(),
        ensures
            Self::is_round(old(self).entries@, final(self).entries@, batch_size, now, batch@),
            final(self).wal_dir == old(self).wal_dir,
            final(self).next_id == old(self).next_id,
            final(self).is_accounted(),
            final(self).total_bytes + bytes_of(batch@) == old(self).total_bytes,
            old(self).is_ordered() ==> final(self).is_ordered() && is_queue(
                models(batch@),
                old(self).next_id,
            ) && has_left(models(batch@), models(final(self).entries@)),
    {
        let ghost all = self.entries@;
        let mut drained = self.drain_batch(batch_size);
        let ghost head = drained@;
        let ghost tail = self.entries@;
        proof {
            assert(head =~= all.subrange(0, head.len() as int));
            assert(tail =~= all.subrange(head.len() as int, all.len() as int));
            lemma_bytes_add(head, tail);
            assert(head.subrange(head.len() as int, head.len() as int) =~= Seq::<
                OutboundEntry,
            >::empty());
            assert(tail =~= Seq::<OutboundEntry>::empty() + tail);
        }
        let mut batch: Vec<OutboundEntry> = Vec::new();
        while drained.len() > 0
            invariant
                drained@.len() <= head.len(),
                drained@ == head.subrange(0, drained@.len() as int),
                batch@ == ready(head.subrange(drained@.len() as int, head.len() as int), now),
                self.entries@ == waiting(
                    head.subrange(drained@.len() as int, head.len() as int),
                    now,
                ) + tail,
                self.wal_dir == old(self).wal_dir,
                self.next_id == old(self).next_id,
                self.is_accounted(),
                bytes_of(self.entries@) + bytes_of(drained@) + bytes_of(batch@) == bytes_of(all),
                bytes_of(all) <= u64::MAX,
            decreases drained@.len(),
        {
            let ghost n = drained@.len() as int;
            let ghost rest = head.subrange(n, head.len() as int);
            let ghost longer = head.subrange(n - 1, head.len() as int);
            let ghost held = drained@;
            let ghost queued = self.entries@;
            let ghost chosen = batch@;
            match drained.pop() {
                Some(entry) => {
                    proof {
                        assert(longer =~= seq![entry] + rest);
                        lemma_round_step(entry, rest, now);
                        assert(drained@ =~= held.drop_last());
                        assert(drained@ =~= head.subrange(0, n - 1));
                        lemma_bytes_front(entry, chosen);
                        lemma_bytes_front(entry, queued);
                    }
                    if Self::is_due(&entry, now) {
                        batch.insert(0, entry);
                        assert(batch@ =~= seq![entry] + chosen);
                    } else {
                        self.requeue_unchanged(entry);
                        assert(self.entries@ =~= waiting(longer, now) + tail);
                    }
                },
                None => {},
            }
        }
        assert(head.subrange(0, head.len() as int) =~= head);
        proof {
            if is_queue(models(all), self.next_id) {
                let none = Seq::<OutboundEntry>::empty();
                let waits = |e: OutboundEntry| !is_ready(e, now);
                let due = |e: OutboundEntry| is_ready(e, now);
                assert(all =~= head + tail);
                lemma_kept_entries_are_a_queue(head, waits, tail, self.next_id);
                assert(models(head + none) =~= models(all).subrange(0, head.len() as int));
                lemma_kept_entries_are_a_queue(head, due, none, self.next_id);
                assert(ready(head, now) + none =~= ready(head, now));
                lemma_ready_entries_have_left(head, tail, now, self.next_id);
            }
        }
        batch
    }
}

/// A file in the queue's directory holds a record.
pub open spec fn is_record_name(name: Seq<char>) -> bool {
    name.len() > ".wal"@.len() && name.subrange(
        name.len() - ".wal"@.len(),
        name.len() as int,
    ) == ".wal"@
}

/// A record file is known by its ending, with anything but nothing in front of it.
pub proof fn law_records_are_known_by_their_ending(name: Seq<char>, stem: Seq<char>)
    ensures
        stem.len() > 0 ==> is_record_name(stem + ".wal"@),
        !is_record_name(".wal"@),
        is_record_name(name) ==> name.len() > 4 && name.skip(name.len() - 4) == ".wal"@,
{
    reveal_strlit(".wal");
    let whole = stem + ".wal"@;
    assert(whole.subrange(whole.len() - 4, whole.len() as int) =~= ".wal"@);
    if is_record_name(name) {
        assert(name.skip(name.len() - 4) =~= name.subrange(name.len() - 4, name.len() as int));
    }
}

/// Tells whether a file of that name holds a record: its extension is `wal`.
pub fn is_record_file(name: &str) -> (b: bool)
    ensures
        b == is_record_name(name@),
{
    let suffix = ".wal";
    let total: usize = name.unicode_len();
    let tail: usize = suffix.unicode_len();
    if total <= tail {
        return false;
    }
    name.substring_char(total - tail, total).to_owned() == suffix.to_owned()
}

} // verus!
