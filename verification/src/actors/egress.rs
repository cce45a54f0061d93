//! Egress: what leaves the node, what is tried again, and what is given up.
use vstd::prelude::*;
use crate::text_map::TextMap;

verus! {

/// How long an announcement of a recording is not repeated, in nanoseconds.
pub const ANNOUNCE_DEDUP_WINDOW_NS: u64 = 30000000000;

/// How many responses wait to be sent again; the oldest make room.
pub const MAX_PENDING_RETRIES: usize = 64;

/// The delay before the first retry, added to the clock's reading.
pub const FIRST_RETRY_DELAY_MS: u64 = 1000;

/// The delay that grows with every attempt.
pub const RETRY_BASE_MS: u64 = 500;

/// A response is given up after this many attempts.
pub const MAX_ATTEMPTS: u32 = 3;

/// A response that could not be sent. The response is kept in its serialized form.
#[derive(Debug)]
pub struct PendingEgress {
    pub channel_id: String,
    pub response: Vec<u8>,
    pub attempt_count: u32,
    pub next_attempt: u64,
}

/// What was asked of egress.
#[derive(Debug)]
pub enum EgressCommand {
    Dispatch { channel_id: String, response: Vec<u8> },
    DrainForSalvage,
    AnnounceRecording(String),
    FindProviders(String),
    RequestShards { target: String, request: Vec<u8> },
    PushArchive { target: String, request: Vec<u8> },
    DisconnectPeer(String),
    ReBootstrap(Vec<String>),
    PublishRevocation(Vec<u8>),
    WithdrawProvider(String),
    /// The payload is the serialized tombstone, empty where it has no serialized form.
    AnnounceTombstone { recording_id: String, payload: Vec<u8> },
    PublishMesh { topic: String, data: Vec<u8> },
}

/// What egress does about a command.
#[derive(Debug)]
pub enum EgressAction {
    /// Send the response; where that fails, report with `queue_failed`.
    Send { channel_id: String, response: Vec<u8> },
    /// Answer with the pending responses.
    Salvage(Vec<PendingEgress>),
    /// Announce the recording.
    Announce(String),
    /// The recording was announced a moment ago.
    Skip,
    FindProviders(String),
    RequestShards { target: String, request: Vec<u8> },
    PushArchive { target: String, request: Vec<u8> },
    Disconnect(String),
    ReBootstrap(Vec<String>),
    PublishRevocation(Vec<u8>),
    WithdrawProvider(String),
    /// Publish the data on the revocation topic.
    PublishTombstone { data: Vec<u8> },
    Publish { topic: String, data: Vec<u8> },
}

/// The state of the egress actor.
pub struct EgressActor {
    pub pending: Vec<PendingEgress>,
    /// The recordings announced in the current window.
    pub announced: TextMap<()>,
    pub last_announce_clear_ns: u64,
}

/// The delay before a response is tried again, after this many attempts (one or two).
pub open spec fn retry_delay(attempts: u32) -> u64 {
    if attempts <= 1 {
        (RETRY_BASE_MS * 2) as u64
    } else {
        (RETRY_BASE_MS * 4) as u64
    }
}

/// What becomes of a pending response at `now`: one that is not due stays, one
/// that was delivered is gone, and one that failed again waits longer or, with
/// its third attempt, is given up.
pub open spec fn after_retry(p: PendingEgress, now: u64, delivered: bool) -> Option<PendingEgress> {
    if p.next_attempt > now {
        Some(p)
    } else if delivered || p.attempt_count + 1 >= MAX_ATTEMPTS {
        None
    } else {
        Some(
            PendingEgress {
                attempt_count: (p.attempt_count + 1) as u32,
                next_attempt: (now + retry_delay((p.attempt_count + 1) as u32)) as u64,
                ..p
            },
        )
    }
}

/// What becomes of the queue: the responses that stay, in their order.
pub open spec fn retried(queue: Seq<PendingEgress>, now: u64, delivered: Seq<bool>) -> Seq<
    PendingEgress,
>
    decreases queue.len(),
{
    if queue.len() == 0 {
        Seq::empty()
    } else {
        let front = retried(queue.drop_last(), now, delivered);
        match after_retry(queue.last(), now, delivered[queue.len() - 1]) {
            Some(p) => front.push(p),
            None => front,
        }
    }
}

/// A round of retries never makes the queue longer.
pub proof fn law_retries_do_not_grow_the_queue(
    queue: Seq<PendingEgress>,
    now: u64,
    delivered: Seq<bool>,
)
    ensures
        retried(queue, now, delivered).len() <= queue.len(),
    decreases queue.len(),
{
    if queue.len() > 0 {
        law_retries_do_not_grow_the_queue(queue.drop_last(), now, delivered);
    }
}

/// A response that keeps failing is sent three times in all: first when it is
/// dispatched, and then at most twice more.
pub proof fn law_attempts_are_bounded(p: PendingEgress, first: u64, second: u64)
    requires
        p.attempt_count == 1,
        p.next_attempt <= first,
        first + 2000 <= second <= u64::MAX,
    ensures
        after_retry(p, first, false) is Some,
        after_retry(p, first, false)->0.attempt_count == 2,
        after_retry(p, first, false)->0.next_attempt == first + 2000,
        after_retry(after_retry(p, first, false)->0, second, false) is None,
{
}

/// A response is left alone until its time has come; then it is gone where it was
/// delivered, and where it failed again it waits twice as long as before, a second
/// at first, unless that was its third attempt. It is never changed itself.
pub proof fn law_retries_wait_longer_each_time(p: PendingEgress, now: u64, delivered: bool)
    requires
        p.attempt_count >= 1,
        now + 2000 <= u64::MAX,
    ensures
        now < p.next_attempt ==> after_retry(p, now, delivered) == Some(p),
        now >= p.next_attempt && delivered ==> after_retry(p, now, delivered) is None,
        now >= p.next_attempt && !delivered ==> (after_retry(p, now, delivered) is None
            <==> p.attempt_count >= 2),
        after_retry(p, now, delivered) matches Some(q) ==> {
            &&& q.channel_id == p.channel_id
            &&& q.response == p.response
            &&& now >= p.next_attempt ==> q.attempt_count == p.attempt_count + 1
                && q.next_attempt == now + 2000
        },
{
}

/// Of the queue everything stays that is not due, in its order; whatever is in the
/// queue after a round was in it before, for the same channel and with the same
/// response.
pub proof fn law_rounds_keep_what_is_not_due(
    queue: Seq<PendingEgress>,
    now: u64,
    delivered: Seq<bool>,
    i: int,
)
    requires
        delivered.len() == queue.len(),
    ensures
        0 <= i < queue.len() && queue[i].next_attempt > now ==> retried(
            queue,
            now,
            delivered,
        ).contains(queue[i]),
        0 <= i < queue.len() && queue[i].next_attempt <= now && queue[i].attempt_count == 1
            && !delivered[i] ==> exists|k: int|
            0 <= k < retried(queue, now, delivered).len() && (#[trigger] retried(
                queue,
                now,
                delivered,
            )[k]).response == queue[i].response && retried(queue, now, delivered)[k].channel_id
                == queue[i].channel_id && retried(queue, now, delivered)[k].attempt_count == 2,
        forall|k: int|
            0 <= k < retried(queue, now, delivered).len() ==> exists|j: int|
                0 <= j < queue.len() && (#[trigger] queue[j]).response == (#[trigger] retried(
                    queue,
                    now,
                    delivered,
                )[k]).response && queue[j].channel_id == retried(
                    queue,
                    now,
                    delivered,
                )[k].channel_id,
        (forall|j: int| 0 <= j < queue.len() ==> (#[trigger] queue[j]).next_attempt > now)
            ==> retried(queue, now, delivered) == queue,
        (forall|j: int|
            0 <= j < queue.len() ==> (#[trigger] queue[j]).next_attempt <= now && delivered[j])
            ==> retried(queue, now, delivered).len() == 0,
    decreases queue.len(),
{
    if queue.len() > 0 {
        let n = queue.len() - 1;
        let front = queue.drop_last();
        let told = delivered.drop_last();
        lemma_retried_needs_only_its_own(front, now, delivered, told);
        law_rounds_keep_what_is_not_due(front, now, told, i);
        let kept = retried(front, now, told);
        let all = retried(queue, now, delivered);
        let last = after_retry(queue.last(), now, delivered[n]);
        if last is Some {
            assert(all == kept.push(last->0));
            assert(all[kept.len() as int] == last->0);
            assert forall|k: int| 0 <= k < kept.len() implies all[k] == kept[k] by {}
        }
        if 0 <= i < n {
            assert(front[i] == queue[i]);
            if queue[i].next_attempt > now {
                let k = kept.index_of(queue[i]);
                assert(all[k] == queue[i]);
            } else if queue[i].attempt_count == 1 && !delivered[i] {
                let k = choose|k: int|
                    0 <= k < kept.len() && (#[trigger] kept[k]).response == front[i].response
                        && kept[k].channel_id == front[i].channel_id && kept[k].attempt_count == 2;
                assert(all[k].response == queue[i].response);
            }
        }
        assert forall|k: int| 0 <= k < all.len() implies exists|j: int|
            0 <= j < queue.len() && (#[trigger] queue[j]).response == (#[trigger] all[k]).response
                && queue[j].channel_id == all[k].channel_id by {
            if k < kept.len() {
                assert(all[k] == kept[k]);
                let j = choose|j: int|
                    0 <= j < front.len() && (#[trigger] front[j]).response == kept[k].response
                        && front[j].channel_id == kept[k].channel_id;
                assert(queue[j] == front[j]);
            } else {
                assert(queue[n].response == all[k].response);
            }
        }
        assert forall|j: int| 0 <= j < front.len() implies front[j] == queue[j] by {}
        if forall|j: int| 0 <= j < queue.len() ==> (#[trigger] queue[j]).next_attempt > now {
            assert(queue[n].next_attempt > now);
            assert(all =~= queue);
        }
        if forall|j: int|
            0 <= j < queue.len() ==> (#[trigger] queue[j]).next_attempt <= now && delivered[j] {
            assert(queue[n].next_attempt <= now);
            assert forall|j: int| 0 <= j < front.len() implies (
            #[trigger] front[j]).next_attempt <= now && told[j] by {
                assert(queue[j].next_attempt <= now);
            }
        }
    } else {
        assert(retried(queue, now, delivered) =~= queue);
    }
}

proof fn lemma_retried_needs_only_its_own(
    queue: Seq<PendingEgress>,
    now: u64,
    a: Seq<bool>,
    b: Seq<bool>,
)
    requires
        a.len() >= queue.len(),
        b.len() >= queue.len(),
        forall|i: int| 0 <= i < queue.len() ==> a[i] == b[i],
    ensures
        retried(queue, now, a) == retried(queue, now, b),
    decreases queue.len(),
{
    if queue.len() > 0 {
        lemma_retried_needs_only_its_own(queue.drop_last(), now, a, b);
    }
}

impl EgressActor {
    pub open spec fn wf(&self) -> bool {
        self.announced.wf()
    }

    /// Starts with the responses that were salvaged.
    pub fn new(salvaged: Vec<PendingEgress>, now_ns: u64) -> (actor: Self)
        ensures
            actor.wf(),
            actor.pending == salvaged,
            actor.announced@ == Map::<Seq<char>, ()>::empty(),
            actor.last_announce_clear_ns == now_ns,
    {
        EgressActor {
            pending: salvaged,
            announced: TextMap::new(),
            last_announce_clear_ns: now_ns,
        }
    }

    /// The window of announcements is over.
    pub open spec fn window_is_over(&self, now_ns: u64) -> bool {
        now_ns >= self.last_announce_clear_ns && now_ns - self.last_announce_clear_ns
            > ANNOUNCE_DEDUP_WINDOW_NS
    }

    /// The recordings that count as announced at `now_ns`.
    pub open spec fn announced_at(&self, now_ns: u64) -> Map<Seq<char>, ()> {
        if self.window_is_over(now_ns) {
            Map::empty()
        } else {
            self.announced@
        }
    }

    /// What an announcement does: each recording once in every window.
    pub open spec fn announce_effect(
        before: Self,
        after: Self,
        recording_id: Seq<char>,
        now_ns: u64,
    ) -> bool {
        &&& after == (EgressActor {
            announced: after.announced,
            last_announce_clear_ns: if before.window_is_over(now_ns) {
                now_ns
            } else {
                before.last_announce_clear_ns
            },
            ..before
        })
        &&& after.announced@ == before.announced_at(now_ns).insert(recording_id, ())
    }

    fn handle_announce(&mut self, recording_id: &String, now_ns: u64) -> (fresh: bool)
        requires
            old(self).wf(),
        ensures
            final(self).wf(),
            Self::announce_effect(*old(self), *final(self), recording_id@, now_ns),
            fresh == !old(self).announced_at(now_ns).dom().contains(recording_id@),
    {
        if now_ns.saturating_sub(self.last_announce_clear_ns) > ANNOUNCE_DEDUP_WINDOW_NS {
            self.announced = TextMap::new();
            self.last_announce_clear_ns = now_ns;
        }
        match self.announced.insert(recording_id.clone(), ()) {
            Some(_) => false,
            None => true,
        }
    }

    /// Once announced, a recording is not announced again before the window is over.
    pub proof fn law_announced_once_per_window(
        before: Self,
        after: Self,
        recording_id: Seq<char>,
        first_ns: u64,
        second_ns: u64,
    )
        requires
            Self::announce_effect(before, after, recording_id, first_ns),
            !after.window_is_over(second_ns),
        ensures
            after.announced_at(second_ns).dom().contains(recording_id),
    {
    }

    /// What each command does to the state and what is done about it.
    pub open spec fn command_effect(
        before: Self,
        after: Self,
        command: EgressCommand,
        now_ns: u64,
        action: EgressAction,
        exit: bool,
    ) -> bool {
        &&& exit == (command is DrainForSalvage)
        &&& match command {
            EgressCommand::DrainForSalvage => {
                &&& after.pending@ == Seq::<PendingEgress>::empty()
                &&& after.announced == before.announced
                &&& after.last_announce_clear_ns == before.last_announce_clear_ns
                &&& action matches EgressAction::Salvage(list) && list@ == before.pending@
            },
            EgressCommand::AnnounceRecording(id) => {
                &&& Self::announce_effect(before, after, id@, now_ns)
                &&& action == if before.announced_at(now_ns).dom().contains(id@) {
                    EgressAction::Skip
                } else {
                    EgressAction::Announce(id)
                }
            },
            EgressCommand::Dispatch { channel_id, response } => after == before && action
                == (EgressAction::Send { channel_id, response }),
            EgressCommand::FindProviders(id) => after == before && action
                == EgressAction::FindProviders(id),
            EgressCommand::RequestShards { target, request } => after == before && action
                == (EgressAction::RequestShards { target, request }),
            EgressCommand::PushArchive { target, request } => after == before && action
                == (EgressAction::PushArchive { target, request }),
            EgressCommand::DisconnectPeer(peer) => after == before && action
                == EgressAction::Disconnect(peer),
            EgressCommand::ReBootstrap(peers) => after == before && action
                == EgressAction::ReBootstrap(peers),
            EgressCommand::PublishRevocation(token) => after == before && action
                == EgressAction::PublishRevocation(token),
            EgressCommand::WithdrawProvider(id) => after == before && action
                == EgressAction::WithdrawProvider(id),
            EgressCommand::AnnounceTombstone { recording_id: _, payload } => after == before
                && action == (EgressAction::PublishTombstone { data: payload }),
            EgressCommand::PublishMesh { topic, data } => after == before && action
                == (EgressAction::Publish { topic, data }),
        }
    }

    /// A recording is announced exactly where it was not announced yet in the window
    /// of thirty seconds, or that window is over; then it counts as announced, and
    /// in a new window nothing else does.
    pub proof fn law_new_recordings_are_announced(
        before: Self,
        after: Self,
        id: String,
        now_ns: u64,
        action: EgressAction,
        exit: bool,
        other: Seq<char>,
    )
        requires
            Self::command_effect(
                before,
                after,
                EgressCommand::AnnounceRecording(id),
                now_ns,
                action,
                exit,
            ),
        ensures
            ({
                let over = now_ns - before.last_announce_clear_ns > 30 * 1000000000;
                &&& action == EgressAction::Announce(id) <==> over
                    || !before.announced@.dom().contains(id@)
                &&& !(action is Announce) ==> action is Skip
                &&& after.announced@.dom().contains(id@)
                &&& other != id@ ==> (after.announced@.dom().contains(other) <==> !over
                    && before.announced@.dom().contains(other))
                &&& after.last_announce_clear_ns == if over {
                    now_ns
                } else {
                    before.last_announce_clear_ns
                }
                &&& after.pending == before.pending
                &&& !exit
            }),
    {
    }

    /// Every other command is carried out as it was given, and only the last one,
    /// which hands out all that waits, ends the loop.
    pub proof fn law_commands_are_carried_out(
        before: Self,
        after: Self,
        command: EgressCommand,
        now_ns: u64,
        action: EgressAction,
        exit: bool,
    )
        requires
            Self::command_effect(before, after, command, now_ns, action, exit),
        ensures
            exit <==> command is DrainForSalvage,
            command is DrainForSalvage ==> (action matches EgressAction::Salvage(list) && list@
                == before.pending@) && after.pending@.len() == 0,
            !(command is DrainForSalvage) ==> after.pending == before.pending,
            command matches EgressCommand::Dispatch { channel_id, response } ==> action
                == (EgressAction::Send { channel_id, response }),
            command matches EgressCommand::FindProviders(id) ==> action
                == EgressAction::FindProviders(id),
            command matches EgressCommand::RequestShards { target, request } ==> action
                == (EgressAction::RequestShards { target, request }),
            command matches EgressCommand::PushArchive { target, request } ==> action
                == (EgressAction::PushArchive { target, request }),
            command matches EgressCommand::DisconnectPeer(peer) ==> action
                == EgressAction::Disconnect(peer),
            command matches EgressCommand::ReBootstrap(peers) ==> action
                == EgressAction::ReBootstrap(peers),
            command matches EgressCommand::PublishRevocation(token) ==> action
                == EgressAction::PublishRevocation(token),
            command matches EgressCommand::WithdrawProvider(id) ==> action
                == EgressAction::WithdrawProvider(id),
            command matches EgressCommand::AnnounceTombstone { payload, .. } ==> action
                == (EgressAction::PublishTombstone { data: payload }),
            command matches EgressCommand::PublishMesh { topic, data } ==> action
                == (EgressAction::Publish { topic, data }),
    {
    }

    /// Decides on a command, and whether it is the last one.
    pub fn handle_command(&mut self, command: EgressCommand, now_ns: u64) -> (decided: (
        EgressAction,
        bool,
    ))
        requires
            old(self).wf(),
        ensures
            final(self).wf(),
            Self::command_effect(
                *old(self),
                *final(self),
                command,
                now_ns,
                decided.0,
                decided.1,
            ),
    {
        match command {
            EgressCommand::DrainForSalvage => {
                let mut drained: Vec<PendingEgress> = Vec::new();
                drained.append(&mut self.pending);
                assert(drained@ =~= old(self).pending@);
                (EgressAction::Salvage(drained), true)
            },
            EgressCommand::AnnounceRecording(id) => {
                if self.handle_announce(&id, now_ns) {
                    (EgressAction::Announce(id), false)
                } else {
                    (EgressAction::Skip, false)
                }
            },
            EgressCommand::Dispatch { channel_id, response } => {
                (EgressAction::Send { channel_id, response }, false)
            },
            EgressCommand::FindProviders(id) => (EgressAction::FindProviders(id), false),
            EgressCommand::RequestShards { target, request } => {
                (EgressAction::RequestShards { target, request }, false)
            },
            EgressCommand::PushArchive { target, request } => {
                (EgressAction::PushArchive { target, request }, false)
            },
            EgressCommand::DisconnectPeer(peer) => (EgressAction::Disconnect(peer), false),
            EgressCommand::ReBootstrap(peers) => (EgressAction::ReBootstrap(peers), false),
            EgressCommand::PublishRevocation(token) => {
                (EgressAction::PublishRevocation(token), false)
            },
            EgressCommand::WithdrawProvider(id) => (EgressAction::WithdrawProvider(id), false),
            EgressCommand::AnnounceTombstone { recording_id: _, payload } => {
                (EgressAction::PublishTombstone { data: payload }, false)
            },
            EgressCommand::PublishMesh { topic, data } => {
                (EgressAction::Publish { topic, data }, false)
            },
        }
    }

    /// The queue with room for one more: its newest entries.
    pub open spec fn with_room(queue: Seq<PendingEgress>) -> Seq<PendingEgress> {
        if queue.len() >= MAX_PENDING_RETRIES {
            queue.subrange(queue.len() - (MAX_PENDING_RETRIES - 1), queue.len() as int)
        } else {
            queue
        }
    }

    /// What the queueing of a response does.
    pub open spec fn queued(
        before: Self,
        after: Self,
        channel_id: String,
        response: Vec<u8>,
        now: u64,
    ) -> bool {
        &&& after.announced == before.announced
        &&& after.last_announce_clear_ns == before.last_announce_clear_ns
        &&& after.pending@ == Self::with_room(before.pending@).push(
            PendingEgress {
                channel_id,
                response,
                attempt_count: 1,
                next_attempt: (now + FIRST_RETRY_DELAY_MS) as u64,
            },
        )
    }

    /// A response that could not be sent waits a second, last in line. Nothing that
    /// waits is lost for it but, from sixty-four on, the oldest, and of those no
    /// more than must be.
    pub proof fn law_failed_responses_wait_in_line(
        before: Self,
        after: Self,
        channel_id: String,
        response: Vec<u8>,
        now: u64,
    )
        requires
            now + 1000 <= u64::MAX,
            Self::queued(before, after, channel_id, response, now),
        ensures
            ({
                let held = before.pending@;
                let waits = after.pending@;
                let stays = vstd::math::min(held.len() as int, 63);
                &&& waits.len() == stays + 1
                &&& waits.last().channel_id == channel_id
                &&& waits.last().response == response
                &&& waits.last().attempt_count == 1
                &&& waits.last().next_attempt == now + 1000
                &&& waits.drop_last() == held.skip(held.len() - stays)
            }),
            after.announced == before.announced,
    {
        let held = before.pending@;
        let stays = vstd::math::min(held.len() as int, 63);
        assert(after.pending@.drop_last() =~= held.skip(held.len() - stays));
    }

    /// Queues a response whose dispatch failed. The oldest are shed where the
    /// queue is full.
    pub fn queue_failed(&mut self, channel_id: String, response: Vec<u8>, now: u64)
        requires
            old(self).wf(),
            now + FIRST_RETRY_DELAY_MS <= u64::MAX,
        ensures
            final(self).wf(),
            Self::queued(*old(self), *final(self), channel_id, response, now),
            final(self).pending@.len() <= MAX_PENDING_RETRIES,
    {
        let ghost before = self.pending@;
        while self.pending.len() >= MAX_PENDING_RETRIES
            invariant
                self.announced == old(self).announced,
                self.last_announce_clear_ns == old(self).last_announce_clear_ns,
                self.announced.wf(),
                self.pending@.len() <= before.len(),
                self.pending@ == before.subrange(
                    before.len() - self.pending@.len(),
                    before.len() as int,
                ),
                before.len() >= MAX_PENDING_RETRIES - 1 ==> self.pending@.len()
                    >= MAX_PENDING_RETRIES - 1,
                before.len() < MAX_PENDING_RETRIES ==> self.pending@.len() == before.len(),
            decreases self.pending@.len(),
        {
            let ghost held = self.pending@;
            self.pending.remove(0);
            assert(self.pending@ =~= before.subrange(
                before.len() - self.pending@.len(),
                before.len() as int,
            ));
        }
        assert(self.pending@ =~= Self::with_room(before));
        self.pending.push(
            PendingEgress {
                channel_id,
                response,
                attempt_count: 1,
                next_attempt: now + FIRST_RETRY_DELAY_MS,
            },
        );
    }

    /// `positions` tells which responses are due.
    pub open spec fn are_due(pending: Seq<PendingEgress>, now: u64, positions: Seq<bool>) -> bool {
        &&& positions.len() == pending.len()
        &&& forall|i: int|
            0 <= i < positions.len() ==> #[trigger] positions[i] == (pending[i].next_attempt
                <= now)
    }

    /// A response is sent again exactly in the rounds that settle it: one that is
    /// not due stays whatever is said of its delivery, and one that is due and was
    /// delivered is gone.
    pub proof fn law_due_responses_are_settled(
        pending: Seq<PendingEgress>,
        now: u64,
        positions: Seq<bool>,
        i: int,
        delivered: bool,
    )
        requires
            Self::are_due(pending, now, positions),
            0 <= i < pending.len(),
        ensures
            positions[i] <==> now >= pending[i].next_attempt,
            !positions[i] ==> after_retry(pending[i], now, delivered) == Some(pending[i]),
            positions[i] ==> after_retry(pending[i], now, true) is None,
    {
    }

    /// Which pending responses are due at `now`, by position.
    pub fn due(&self, now: u64) -> (positions: Vec<bool>)
        ensures
            Self::are_due(self.pending@, now, positions@),
    {
        let mut positions: Vec<bool> = Vec::new();
        let mut i: usize = 0;
        while i < self.pending.len()
            invariant
                i <= self.pending@.len(),
                positions@.len() == i,
                forall|j: int|
                    0 <= j < i ==> #[trigger] positions@[j] == (self.pending@[j].next_attempt
                        <= now),
            decreases self.pending@.len() - i,
        {
            positions.push(self.pending[i].next_attempt <= now);
            i += 1;
        }
        positions
    }

    /// Settles a round of retries. `delivered` tells, by position, which of the
    /// responses that were due went through.
    pub fn process_pending(&mut self, now: u64, delivered: &Vec<bool>)
        requires
            old(self).wf(),
            delivered@.len() == old(self).pending@.len(),
            now + 4 * RETRY_BASE_MS <= u64::MAX,
        ensures
            final(self).wf(),
            final(self).announced == old(self).announced,
            final(self).last_announce_clear_ns == old(self).last_announce_clear_ns,
            final(self).pending@ == retried(old(self).pending@, now, delivered@),
    {
        let ghost queue = self.pending@;
        let mut rest: Vec<PendingEgress> = Vec::new();
        rest.append(&mut self.pending);
        assert(rest@ =~= queue);
        let mut kept: Vec<PendingEgress> = Vec::new();
        let mut i: usize = 0;
        let due: usize = delivered.len();
        assert(queue.subrange(0, 0) =~= Seq::<PendingEgress>::empty());
        while rest.len() > 0
            invariant
                self.announced == old(self).announced,
                self.last_announce_clear_ns == old(self).last_announce_clear_ns,
                i + rest@.len() == queue.len(),
                delivered@.len() == queue.len(),
                queue.len() == due,
                rest@ == queue.subrange(i as int, queue.len() as int),
                kept@ == retried(queue.subrange(0, i as int), now, delivered@),
                now + 4 * RETRY_BASE_MS <= u64::MAX,
            decreases rest@.len(),
        {
            let p = rest.remove(0);
            proof {
                assert(p == queue[i as int]);
                let next = queue.subrange(0, i + 1);
                assert(next.drop_last() =~= queue.subrange(0, i as int));
                assert(next.last() == p);
                assert(rest@ =~= queue.subrange(i + 1, queue.len() as int));
            }
            if p.next_attempt > now {
                kept.push(p);
            } else if !delivered[i] {
                if p.attempt_count < MAX_ATTEMPTS - 1 {
                    let attempts: u32 = p.attempt_count + 1;
                    let delay: u64 = if attempts == 1 {
                        RETRY_BASE_MS * 2
                    } else {
                        RETRY_BASE_MS * 4
                    };
                    kept.push(
                        PendingEgress {
                            channel_id: p.channel_id,
                            response: p.response,
                            attempt_count: attempts,
                            next_attempt: now + delay,
                        },
                    );
                }
            }
            i += 1;
        }
        assert(queue.subrange(0, i as int) =~= queue);
        self.pending = kept;
    }
}

} // verus!
