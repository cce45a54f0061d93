//! Media egress: captured evidence is gated, encrypted, sealed into a chain,
//! kept locally and published in bundles of symbols.
use vstd::prelude::*;
use crate::persistence::outbound::{OutboundEntry, OutboundEntryId, OutboundQueue};

verus! {

/// How many queued entries a round of retries looks at.
pub const RETRY_BATCH: usize = 10;

/// What is being sent.
#[derive(Debug, Clone, Copy, PartialEq, Eq, Structural)]
pub enum MediaClass {
    Video,
    Audio,
    /// A signed statement that a peer was near: no secret payload, no chain.
    Proximity,
}

/// How sealing an evidence ended.
#[derive(Debug)]
pub enum SealOutcome {
    /// There is no envelope.
    Failed,
    /// There is an envelope with this signature hash, but no serialized form.
    Unserializable(Vec<u8>),
    /// There is an envelope with this signature hash, in serialized form.
    Sealed(Vec<u8>),
}

/// What is done with a sealed evidence.
#[derive(Debug)]
pub enum MediaStep {
    Drop,
    /// Keep the envelope in the local vault.
    Persist,
    /// Keep it, and publish its symbols under this shard number and topic.
    PersistAndPublish { shard_id: u64, topic: String },
}

/// How a retry ended.
#[derive(Debug, Clone, Copy, PartialEq, Eq, Structural)]
pub enum RetryOutcome {
    Published,
    /// The queued bytes are no symbol.
    Undecodable,
    Failed,
}

/// What is done with an entry after a retry.
#[derive(Debug)]
pub enum RetryAction {
    /// Remove its record.
    Remove(OutboundEntryId),
    /// Write its record anew and queue it again.
    Store(OutboundEntry),
}

/// The state of the media egress actor.
pub struct MediaEgressActor {
    pub video_topic: String,
    pub audio_topic: String,
    /// The signature hash that the next video envelope links to.
    pub video_prev_hash: Option<Vec<u8>>,
    /// The signature hash that the next audio envelope links to.
    pub audio_prev_hash: Option<Vec<u8>>,
    /// How many symbols go into one message.
    pub symbol_bundle_size: usize,
    pub vault_key: [u8; 32],
    pub next_shard_id: u64,
    pub outbound_queue: OutboundQueue,
}

/// Evidence passes: video must come from a camera sensor, and neither video nor
/// audio goes on in the clear.
pub open spec fn passes(class: MediaClass, provenance_ok: bool, encrypted: bool) -> bool {
    match class {
        MediaClass::Video => provenance_ok && encrypted,
        MediaClass::Audio => encrypted,
        MediaClass::Proximity => true,
    }
}

/// The bundles are consecutive runs that cover all `count` symbols, each of
/// them full but perhaps the last.
pub open spec fn covers(bundles: Seq<(usize, usize)>, count: nat, size: nat) -> bool {
    &&& count == 0 ==> bundles.len() == 0
    &&& count > 0 ==> bundles.len() > 0 && bundles[0].0 == 0 && bundles.last().1 == count
    &&& forall|k: int|
        0 <= k < bundles.len() ==> {
            &&& (#[trigger] bundles[k]).0 < bundles[k].1
            &&& k + 1 < bundles.len() ==> bundles[k].1 - bundles[k].0 == size
            &&& bundles[k].1 - bundles[k].0 <= size
        }
    &&& forall|k: int|
        0 < k < bundles.len() ==> (#[trigger] bundles[k]).0 == bundles[k - 1].1
}

proof fn lemma_bundles_start_at_multiples(
    bundles: Seq<(usize, usize)>,
    count: nat,
    size: nat,
    k: int,
)
    requires
        covers(bundles, count, size),
        0 <= k < bundles.len(),
    ensures
        bundles[k].0 == k * size,
    decreases k,
{
    if k > 0 {
        lemma_bundles_start_at_multiples(bundles, count, size, k - 1);
        assert(bundles[k].0 == bundles[k - 1].1);
        assert(bundles[k - 1].1 - bundles[k - 1].0 == size);
        assert((k - 1) * size + size == k * size) by (nonlinear_arith);
    } else {
        assert(0 * size == 0) by (nonlinear_arith);
        assert(count > 0);
    }
}

/// Every symbol is in a bundle, and there are as few bundles as can be: symbol `i`
/// is in the bundle that counts as `i / size`, and the last bundle holds the last
/// symbol.
pub proof fn law_every_symbol_is_bundled(
    bundles: Seq<(usize, usize)>,
    count: nat,
    size: nat,
    i: int,
)
    requires
        size > 0,
        covers(bundles, count, size),
        0 <= i < count,
    ensures
        i / (size as int) < bundles.len(),
        bundles[i / (size as int)].0 <= i < bundles[i / (size as int)].1,
        bundles.len() == (count - 1) / (size as int) + 1,
{
    let n = bundles.len() as int;
    let s = size as int;
    lemma_bundles_start_at_multiples(bundles, count, size, n - 1);
    assert(bundles[n - 1].0 < bundles[n - 1].1);
    assert((n - 1) * s <= count - 1 < (n - 1) * s + s);
    vstd::arithmetic::div_mod::lemma_fundamental_div_mod_converse(
        count - 1,
        s,
        n - 1,
        count - 1 - (n - 1) * s,
    );
    let k = i / s;
    vstd::arithmetic::div_mod::lemma_fundamental_div_mod(i, s);
    vstd::arithmetic::div_mod::lemma_div_is_ordered(i, count - 1, s);
    vstd::arithmetic::div_mod::lemma_div_pos_is_pos(i, s);
    lemma_bundles_start_at_multiples(bundles, count, size, k);
    assert(k * s <= i < k * s + s) by (nonlinear_arith)
        requires
            i == s * k + i % s,
            0 <= i % s < s,
    ;
    if k + 1 < n {
        assert(bundles[k].1 - bundles[k].0 == size);
    }
}

/// Splits `count` symbols into bundles of `size`, as pairs of first and past-last
/// position.
pub fn bundles(count: usize, size: usize) -> (list: Vec<(usize, usize)>)
    requires
        size > 0,
    ensures
        covers(list@, count as nat, size as nat),
{
    let mut list: Vec<(usize, usize)> = Vec::new();
    let mut from: usize = 0;
    while from < count
        invariant
            from <= count,
            size > 0,
            from == 0 ==> list@.len() == 0,
            from > 0 ==> list@.len() > 0 && list@[0].0 == 0 && list@.last().1 == from,
            from < count ==> forall|k: int|
                0 <= k < list@.len() ==> (#[trigger] list@[k]).1 - list@[k].0 == size,
            forall|k: int|
                0 <= k < list@.len() ==> {
                    &&& (#[trigger] list@[k]).0 < list@[k].1
                    &&& k + 1 < list@.len() ==> list@[k].1 - list@[k].0 == size
                    &&& list@[k].1 - list@[k].0 <= size
                },
            forall|k: int| 0 < k < list@.len() ==> (#[trigger] list@[k]).0 == list@[k - 1].1,
        decreases count - from,
    {
        let to: usize = if count - from > size {
            from + size
        } else {
            count
        };
        list.push((from, to));
        from = to;
    }
    list
}

impl MediaEgressActor {
    /// Starts with no chain and the queue that was found on disk.
    pub fn new(
        video_topic: String,
        audio_topic: String,
        symbol_bundle_size: usize,
        vault_key: [u8; 32],
        outbound_queue: OutboundQueue,
    ) -> (actor: Self)
        ensures
            actor == (MediaEgressActor {
                video_topic,
                audio_topic,
                video_prev_hash: None,
                audio_prev_hash: None,
                symbol_bundle_size,
                vault_key,
                next_shard_id: 0,
                outbound_queue,
            }),
    {
        MediaEgressActor {
            video_topic,
            audio_topic,
            video_prev_hash: None,
            audio_prev_hash: None,
            symbol_bundle_size,
            vault_key,
            next_shard_id: 0,
            outbound_queue,
        }
    }

    /// The topic that a class is published on.
    pub open spec fn topic_of(&self, class: MediaClass) -> Seq<char> {
        match class {
            MediaClass::Audio => self.audio_topic@,
            _ => self.video_topic@,
        }
    }

    pub fn topic(&self, class: MediaClass) -> (topic: String)
        ensures
            topic@ == self.topic_of(class),
    {
        match class {
            MediaClass::Audio => self.audio_topic.clone(),
            _ => self.video_topic.clone(),
        }
    }

    pub open spec fn is_payload_key(&self, content_key: Option<[u8; 32]>, key: [u8; 32]) -> bool {
        key == match content_key {
            Some(k) => k,
            None => self.vault_key,
        }
    }

    /// A recording with a key of its own is encrypted under that key, whatever the
    /// vault's is, and every other one under the vault's.
    pub proof fn law_recordings_keep_to_their_keys(
        &self,
        content_key: Option<[u8; 32]>,
        key: [u8; 32],
    )
        requires
            self.is_payload_key(content_key, key),
        ensures
            content_key is Some ==> key == content_key->0,
            content_key is None ==> key == self.vault_key,
    {
    }

    /// The key that payloads are encrypted with: the recording's own, where
    /// there is one.
    pub fn payload_key(&self, content_key: &Option<[u8; 32]>) -> (key: [u8; 32])
        ensures
            self.is_payload_key(*content_key, key),
    {
        match content_key {
            Some(k) => *k,
            None => self.vault_key,
        }
    }

    /// The hash that the next envelope of a class links to.
    pub open spec fn link(&self, class: MediaClass) -> Option<Vec<u8>> {
        match class {
            MediaClass::Video => self.video_prev_hash,
            MediaClass::Audio => self.audio_prev_hash,
            MediaClass::Proximity => None,
        }
    }

    /// The state with another link for a class.
    pub open spec fn relinked(self, class: MediaClass, link: Option<Vec<u8>>) -> Self {
        match class {
            MediaClass::Video => MediaEgressActor { video_prev_hash: link, ..self },
            MediaClass::Audio => MediaEgressActor { audio_prev_hash: link, ..self },
            MediaClass::Proximity => self,
        }
    }

    /// What the beginning of a sealing does.
    pub open spec fn begin_effect(
        before: Self,
        after: Self,
        class: MediaClass,
        provenance_ok: bool,
        encrypted: bool,
        seal: Option<Option<Vec<u8>>>,
    ) -> bool {
        &&& seal is Some <==> passes(class, provenance_ok, encrypted)
        &&& seal is None ==> after == before
        &&& seal is Some ==> {
            &&& seal->0 == before.link(class)
            &&& after == before.relinked(class, None)
        }
    }

    /// Encrypted audio is sealed, and so is encrypted video from a camera and every
    /// proximity witness; nothing else is, and what is not sealed breaks no chain.
    pub proof fn law_what_is_sealed(
        before: Self,
        after: Self,
        class: MediaClass,
        provenance_ok: bool,
        encrypted: bool,
        seal: Option<Option<Vec<u8>>>,
    )
        requires
            Self::begin_effect(before, after, class, provenance_ok, encrypted, seal),
        ensures
            class == MediaClass::Video ==> (seal is Some <==> provenance_ok && encrypted),
            class == MediaClass::Audio ==> (seal is Some <==> encrypted),
            class == MediaClass::Proximity ==> seal is Some && seal->0 is None && after == before,
            seal is None ==> after == before,
            class == MediaClass::Video && seal is Some ==> seal->0 == before.video_prev_hash
                && after.audio_prev_hash == before.audio_prev_hash,
            class == MediaClass::Audio && seal is Some ==> seal->0 == before.audio_prev_hash
                && after.video_prev_hash == before.video_prev_hash,
            after.next_shard_id == before.next_shard_id,
            after.outbound_queue == before.outbound_queue,
    {
    }

    /// Decides whether an evidence is sealed, and to which hash it links. The
    /// link is used up.
    pub fn begin_seal(&mut self, class: MediaClass, provenance_ok: bool, encrypted: bool) -> (seal:
        Option<Option<Vec<u8>>>)
        ensures
            Self::begin_effect(*old(self), *final(self), class, provenance_ok, encrypted, seal),
    {
        match class {
            MediaClass::Video => {
                if !provenance_ok || !encrypted {
                    return None;
                }
                Some(self.video_prev_hash.take())
            },
            MediaClass::Audio => {
                if !encrypted {
                    return None;
                }
                Some(self.audio_prev_hash.take())
            },
            MediaClass::Proximity => Some(None),
        }
    }

    /// What follows the sealing.
    pub open spec fn seal_effect(
        before: Self,
        after: Self,
        class: MediaClass,
        outcome: SealOutcome,
        step: MediaStep,
    ) -> bool {
        match outcome {
            SealOutcome::Failed => after == before && step is Drop,
            SealOutcome::Unserializable(hash) => after == before.relinked(class, Some(hash))
                && step is Persist,
            SealOutcome::Sealed(hash) => {
                &&& after == (MediaEgressActor {
                    next_shard_id: (before.next_shard_id + 1) as u64,
                    ..before.relinked(class, Some(hash))
                })
                &&& step is PersistAndPublish
                &&& step->shard_id == before.next_shard_id
                &&& step->topic@ == before.topic_of(class)
            },
        }
    }

    fn set_link(&mut self, class: MediaClass, hash: Vec<u8>)
        ensures
            *final(self) == old(self).relinked(class, Some(hash)),
    {
        match class {
            MediaClass::Video => {
                self.video_prev_hash = Some(hash);
            },
            MediaClass::Audio => {
                self.audio_prev_hash = Some(hash);
            },
            MediaClass::Proximity => {},
        }
    }

    /// Links the chain to a new envelope and numbers its symbols.
    pub fn after_seal(&mut self, class: MediaClass, outcome: SealOutcome) -> (step: MediaStep)
        requires
            old(self).next_shard_id < u64::MAX,
        ensures
            Self::seal_effect(*old(self), *final(self), class, outcome, step),
    {
        match outcome {
            SealOutcome::Failed => MediaStep::Drop,
            SealOutcome::Unserializable(hash) => {
                self.set_link(class, hash);
                MediaStep::Persist
            },
            SealOutcome::Sealed(hash) => {
                self.set_link(class, hash);
                let shard_id: u64 = self.next_shard_id;
                self.next_shard_id = shard_id + 1;
                let topic = self.topic(class);
                MediaStep::PersistAndPublish { shard_id, topic }
            },
        }
    }

    /// Nothing but a proximity witness is sealed without having been encrypted.
    pub proof fn law_media_is_sealed_encrypted(class: MediaClass, provenance_ok: bool)
        requires
            class != MediaClass::Proximity,
        ensures
            !passes(class, provenance_ok, false),
    {
    }

    /// Consecutive envelopes of a class form a chain: an envelope links to the
    /// one of its class before it, whatever the other class did in between.
    pub proof fn law_envelopes_chain_within_their_class(
        s0: Self,
        s1: Self,
        s2: Self,
        class: MediaClass,
        other: MediaClass,
        hash: Vec<u8>,
        step: MediaStep,
        other_outcome: SealOutcome,
        other_step: MediaStep,
    )
        requires
            class != MediaClass::Proximity,
            other != class,
            Self::seal_effect(s0, s1, class, SealOutcome::Sealed(hash), step),
            Self::seal_effect(s1.relinked(other, None), s2, other, other_outcome, other_step),
        ensures
            s1.link(class) == Some(hash),
            s2.link(class) == Some(hash),
    {
    }

    /// An envelope links to the one of its class that was sealed right before it,
    /// and each link is used once: a sealing that fails leaves the next one without.
    pub proof fn law_each_envelope_links_to_the_last(
        s0: Self,
        s1: Self,
        s2: Self,
        s3: Self,
        class: MediaClass,
        outcome: SealOutcome,
        step: MediaStep,
        first: Option<Option<Vec<u8>>>,
        second: Option<Option<Vec<u8>>>,
    )
        requires
            class != MediaClass::Proximity,
            Self::begin_effect(s0, s1, class, true, true, first),
            Self::seal_effect(s1, s2, class, outcome, step),
            Self::begin_effect(s2, s3, class, true, true, second),
        ensures
            second is Some,
            outcome matches SealOutcome::Sealed(hash) ==> second->0 == Some(hash),
            outcome matches SealOutcome::Unserializable(hash) ==> second->0 == Some(hash),
            outcome is Failed ==> second->0 is None,
    {
    }

    /// Whatever was sealed is kept, and published too where it has a serialized
    /// form: audio on the audio topic and all else on the video topic, under numbers
    /// that follow each other without a gap.
    pub proof fn law_what_is_sealed_is_published(
        before: Self,
        after: Self,
        class: MediaClass,
        outcome: SealOutcome,
        step: MediaStep,
    )
        requires
            before.next_shard_id < u64::MAX,
            Self::seal_effect(before, after, class, outcome, step),
        ensures
            outcome is Failed <==> step is Drop,
            outcome is Unserializable <==> step is Persist,
            outcome is Sealed <==> step is PersistAndPublish,
            step is PersistAndPublish ==> {
                &&& step->shard_id == before.next_shard_id
                &&& after.next_shard_id == before.next_shard_id + 1
                &&& step->topic@ == if class == MediaClass::Audio {
                    before.audio_topic@
                } else {
                    before.video_topic@
                }
            },
            !(step is PersistAndPublish) ==> after.next_shard_id == before.next_shard_id,
            after.outbound_queue == before.outbound_queue,
            after.video_topic == before.video_topic,
            after.audio_topic == before.audio_topic,
            after.vault_key == before.vault_key,
    {
    }

    /// Every published envelope has a shard number of its own.
    pub proof fn law_shard_numbers_grow(
        s0: Self,
        s1: Self,
        class: MediaClass,
        outcome: SealOutcome,
        step: MediaStep,
    )
        requires
            s0.next_shard_id < u64::MAX,
            Self::seal_effect(s0, s1, class, outcome, step),
            step is PersistAndPublish,
        ensures
            step->shard_id < s1.next_shard_id,
    {
    }

    /// What becomes of an entry after a retry.
    pub open spec fn settles(
        entry: OutboundEntry,
        outcome: RetryOutcome,
        now: u64,
        action: RetryAction,
    ) -> bool {
        action == if outcome == RetryOutcome::Failed && entry.attempts + 1
            < crate::persistence::outbound::MAX_ATTEMPTS {
            RetryAction::Store(
                OutboundEntry {
                    attempts: (entry.attempts + 1) as u32,
                    last_attempt: Some(now),
                    ..entry
                },
            )
        } else {
            RetryAction::Remove(entry.id)
        }
    }

    /// A symbol that could not be published stays, unchanged but for its count and
    /// time, until its tenth attempt; one that was published, or is no symbol, goes.
    pub proof fn law_symbols_have_ten_attempts(
        entry: OutboundEntry,
        outcome: RetryOutcome,
        now: u64,
        action: RetryAction,
    )
        requires
            Self::settles(entry, outcome, now, action),
        ensures
            outcome == RetryOutcome::Failed && entry.attempts < 9 ==> (action matches
                RetryAction::Store(kept) && kept.attempts == entry.attempts + 1 && kept.last_attempt
                == Some(now) && kept.id == entry.id && kept == (OutboundEntry {
                attempts: kept.attempts,
                last_attempt: kept.last_attempt,
                ..entry
            })),
            outcome != RetryOutcome::Failed || entry.attempts >= 9 ==> (action matches
                RetryAction::Remove(id) && id == entry.id),
    {
    }

    /// Decides on an entry that was tried again.
    pub fn settle_retry(entry: OutboundEntry, outcome: RetryOutcome, now: u64) -> (action:
        RetryAction)
        ensures
            Self::settles(entry, outcome, now, action),
    {
        let id: OutboundEntryId = entry.id;
        match outcome {
            RetryOutcome::Failed => {
                match OutboundQueue::requeue_failed(entry, now) {
                    Some(kept) => RetryAction::Store(kept),
                    None => RetryAction::Remove(id),
                }
            },
            _ => RetryAction::Remove(id),
        }
    }

    pub open spec fn ends(
        &self,
        cancelled: bool,
        video_open: bool,
        audio_open: bool,
        done: bool,
    ) -> bool {
        done == (cancelled || (!video_open && !audio_open && self.outbound_queue.entries@.len()
            == 0))
    }

    /// Without being told to stop the actor goes on while a source is open or an
    /// entry waits, and no longer.
    pub proof fn law_nothing_is_left_behind(
        &self,
        cancelled: bool,
        video_open: bool,
        audio_open: bool,
        done: bool,
    )
        requires
            self.ends(cancelled, video_open, audio_open, done),
        ensures
            cancelled ==> done,
            !cancelled && (video_open || audio_open) ==> !done,
            !cancelled && self.outbound_queue.entries@.len() > 0 ==> !done,
            !video_open && !audio_open && self.outbound_queue.entries@.len() == 0 ==> done,
    {
    }

    /// The actor stops: it was told to, or both media sources are closed and
    /// nothing waits to be sent again.
    pub fn is_done(&self, cancelled: bool, video_open: bool, audio_open: bool) -> (b: bool)
        ensures
            self.ends(cancelled, video_open, audio_open, b),
    {
        cancelled || (!video_open && !audio_open && self.outbound_queue.is_empty())
    }
}

} // verus!
