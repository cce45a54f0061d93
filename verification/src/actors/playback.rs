//! Playback: walking a recording shard by shard, in sequence order.
//!
//! The coordinator asks for one shard at a time. What it is told about that
//! shard decides what is handed to the player, whether a missing shard is
//! looked for again, skipped, or taken as the end of the recording.
use vstd::prelude::*;
use crate::actors::retrieval_request::{build_recording_request, RecordingRequest, SealedLocator};
use crate::bytes;
use crate::wire;

verus! {

/// How often one sequence is asked for before it is skipped.
pub const MAX_RETRIES: u32 = 5;

/// How many skipped sequences in a row end the recording.
pub const MAX_CONSECUTIVE_GAPS: u32 = 20;

/// How long to wait before a missing shard is asked for again.
pub const RETRY_DELAY_MS: u64 = 100;

/// The spacing of frames when a shard names no frame rate.
pub const FALLBACK_INTERVAL_MS: u64 = 33;

/// Diagnostic counters returned after playback completes.
#[derive(Debug, Clone, Copy, PartialEq, Eq, Structural)]
pub struct PlaybackStats {
    pub shards_found: u32,
    pub shards_missing: u32,
    pub video_sent: u32,
    pub audio_sent: u32,
    pub decode_failures: u32,
}

impl Default for PlaybackStats {
    fn default() -> (stats: Self)
        ensures
            stats == (PlaybackStats {
                shards_found: 0,
                shards_missing: 0,
                video_sent: 0,
                audio_sent: 0,
                decode_failures: 0,
            }),
    {
        PlaybackStats {
            shards_found: 0,
            shards_missing: 0,
            video_sent: 0,
            audio_sent: 0,
            decode_failures: 0,
        }
    }
}

/// The payload of a shard after an attempt to decode it.
#[derive(Debug)]
pub enum Decoded {
    /// The shard carries no payload.
    Missing,
    /// The payload could not be decrypted or decompressed.
    Failed,
    /// The cleartext.
    Data(Vec<u8>),
}

/// What storage answered for the current sequence.
#[derive(Debug)]
pub enum Fetched {
    /// No shard under this sequence.
    NotFound,
    /// A shard that has nothing to play: a gap, a handover or a proximity record.
    Marker,
    Video { timestamp_ms: u64, fps: u32, payload: Decoded },
    Audio { sample_rate: u32, channels: u8, payload: Decoded },
}

/// What the driver of the coordinator is to do next.
#[derive(Debug)]
pub enum PlaybackAction {
    /// Ask storage for the current sequence at once.
    Fetch,
    /// Start discovery for `sequence`, wait [`RETRY_DELAY_MS`], then ask again.
    Discover { sequence: u32 },
    /// The recording is over.
    Finish,
    /// Hand the chunk to the audio sink, then report with `audio_sent`.
    SendAudio { sequence: u32, chunk: Vec<u8> },
    /// Hand the chunks to the video sink in order, stop at the first that it
    /// refuses, then report with `frames_sent`.
    SendFrames { sequence: u32, chunks: Vec<Vec<u8>> },
    /// Hand the chunk to the video sink, then report with `raw_sent`.
    SendRaw { sequence: u32, chunk: Vec<u8> },
}

/// The spacing of the frames of a shard, in milliseconds.
pub open spec fn interval_of(fps: u32) -> u64 {
    if fps > 0 {
        1000u64 / (fps as u64)
    } else {
        FALLBACK_INTERVAL_MS
    }
}

/// The time stamp of frame `i`; it wraps around at the end of the 64-bit range.
pub open spec fn frame_time(timestamp_ms: u64, interval_ms: u64, i: int) -> u64 {
    ((timestamp_ms + i * interval_ms) % 0x1_0000_0000_0000_0000) as u64
}

/// Each frame with its own time stamp in front of it.
pub open spec fn timed_frames(timestamp_ms: u64, interval_ms: u64, frames: Seq<Seq<u8>>) -> Seq<
    Seq<u8>,
> {
    Seq::new(
        frames.len(),
        |i: int| bytes::le8(frame_time(timestamp_ms, interval_ms, i)) + frames[i],
    )
}

/// Raw samples behind the header that tells the player their rate and channels.
pub open spec fn audio_chunk(sample_rate: u32, channels: u8, pcm: Seq<u8>) -> Seq<u8> {
    bytes::le4(sample_rate) + seq![channels, 0u8] + pcm
}

/// The player can take an audio chunk apart again.
pub proof fn law_audio_chunk_is_readable(sample_rate: u32, channels: u8, pcm: Seq<u8>)
    ensures
        audio_chunk(sample_rate, channels, pcm).len() == 6 + pcm.len(),
        bytes::le4_value(audio_chunk(sample_rate, channels, pcm)) == sample_rate,
        audio_chunk(sample_rate, channels, pcm)[4] == channels,
        audio_chunk(sample_rate, channels, pcm).subrange(6, 6 + pcm.len() as int) == pcm,
{
    let c = audio_chunk(sample_rate, channels, pcm);
    assert(c =~= bytes::le4(sample_rate) + (seq![channels, 0u8] + pcm));
    bytes::lemma_le4_round_trip(sample_rate, seq![channels, 0u8] + pcm);
    assert(c.subrange(6, 6 + pcm.len() as int) =~= pcm);
}

/// The player can take a timed frame apart again.
pub proof fn law_timed_frame_is_readable(
    timestamp_ms: u64,
    interval_ms: u64,
    frames: Seq<Seq<u8>>,
    i: int,
)
    requires
        0 <= i < frames.len(),
    ensures
        timed_frames(timestamp_ms, interval_ms, frames)[i].len() == 8 + frames[i].len(),
        bytes::le8_value(timed_frames(timestamp_ms, interval_ms, frames)[i]) == frame_time(
            timestamp_ms,
            interval_ms,
            i,
        ),
        timed_frames(timestamp_ms, interval_ms, frames)[i].subrange(8, 8 + frames[i].len() as int)
            == frames[i],
{
    let t = frame_time(timestamp_ms, interval_ms, i);
    bytes::lemma_le8_round_trip(t, frames[i]);
    let f = timed_frames(timestamp_ms, interval_ms, frames)[i];
    assert(f.subrange(8, 8 + frames[i].len() as int) =~= frames[i]);
}

pub fn frame_interval(fps: u32) -> (ms: u64)
    ensures
        ms == interval_of(fps),
{
    if fps > 0 {
        1000u64 / (fps as u64)
    } else {
        FALLBACK_INTERVAL_MS
    }
}

proof fn lemma_next_frame_time(timestamp_ms: u64, interval_ms: u64, i: int)
    requires
        0 <= i,
    ensures
        frame_time(timestamp_ms, interval_ms, i).wrapping_add(interval_ms) == frame_time(
            timestamp_ms,
            interval_ms,
            i + 1,
        ),
{
    let m: int = 0x1_0000_0000_0000_0000;
    let a = timestamp_ms + i * interval_ms;
    assert(timestamp_ms + (i + 1) * interval_ms == a + interval_ms) by (nonlinear_arith)
        requires
            a == timestamp_ms + i * interval_ms,
    ;
    assert(a >= 0) by (nonlinear_arith)
        requires
            a == timestamp_ms + i * interval_ms,
            i >= 0,
    ;
    vstd::arithmetic::div_mod::lemma_add_mod_noop(a, interval_ms as int, m);
    vstd::arithmetic::div_mod::lemma_small_mod(interval_ms as nat, m as nat);
    let t = a % m;
    if t + interval_ms < m {
        vstd::arithmetic::div_mod::lemma_small_mod((t + interval_ms) as nat, m as nat);
    } else {
        vstd::arithmetic::div_mod::lemma_mod_sub_multiples_vanish(t + interval_ms, m);
        vstd::arithmetic::div_mod::lemma_small_mod((t + interval_ms - m) as nat, m as nat);
    }
}

fn stamp_frames(timestamp_ms: u64, interval_ms: u64, frames: &Vec<Vec<u8>>) -> (chunks: Vec<
    Vec<u8>,
>)
    ensures
        wire::rows(chunks@) == timed_frames(timestamp_ms, interval_ms, wire::rows(frames@)),
{
    let mut chunks: Vec<Vec<u8>> = Vec::new();
    let mut time: u64 = timestamp_ms;
    let mut i: usize = 0;
    assert(frame_time(timestamp_ms, interval_ms, 0) == timestamp_ms) by {
        assert(0 * interval_ms == 0) by (nonlinear_arith);
        vstd::arithmetic::div_mod::lemma_small_mod(
            timestamp_ms as nat,
            0x1_0000_0000_0000_0000nat,
        );
    }
    while i < frames.len()
        invariant
            i <= frames@.len(),
            chunks@.len() == i,
            time == frame_time(timestamp_ms, interval_ms, i as int),
            forall|j: int|
                0 <= j < i ==> (#[trigger] chunks@[j])@ == bytes::le8(
                    frame_time(timestamp_ms, interval_ms, j),
                ) + frames@[j]@,
        decreases frames@.len() - i,
    {
        let mut chunk = bytes::put_le8(time);
        bytes::extend(&mut chunk, frames[i].as_slice());
        chunks.push(chunk);
        proof {
            lemma_next_frame_time(timestamp_ms, interval_ms, i as int);
        }
        time = time.wrapping_add(interval_ms);
        i += 1;
    }
    assert(wire::rows(chunks@) =~= timed_frames(timestamp_ms, interval_ms, wire::rows(frames@)));
    chunks
}

/// `action` hands the frames to the video sink, or the payload where there are none.
pub open spec fn is_video_action(
    sequence: u32,
    timestamp_ms: u64,
    fps: u32,
    data: Seq<u8>,
    frames: Option<Seq<Seq<u8>>>,
    action: PlaybackAction,
) -> bool {
    match frames {
        Some(v) => action matches PlaybackAction::SendFrames { sequence: s, chunks } && s
            == sequence && wire::rows(chunks@) == timed_frames(timestamp_ms, interval_of(fps), v),
        None => action matches PlaybackAction::SendRaw { sequence: s, chunk } && s == sequence
            && chunk@ == bytes::le8(timestamp_ms) + data,
    }
}

/// Every frame of a shard is handed on, whole and in its order, and the frames of a
/// second with `fps` of them are spread over it, from the time of the shard on.
pub proof fn law_every_frame_is_played(
    sequence: u32,
    timestamp_ms: u64,
    fps: u32,
    data: Seq<u8>,
    frames: Seq<Seq<u8>>,
    action: PlaybackAction,
    i: int,
)
    requires
        is_video_action(sequence, timestamp_ms, fps, data, Some(frames), action),
        0 <= i < frames.len(),
        fps > 0,
        timestamp_ms + i * (1000int / (fps as int)) <= u64::MAX,
    ensures
        action matches PlaybackAction::SendFrames { sequence: s, chunks } && s == sequence
            && chunks@.len() == frames.len() && chunks@[i]@.skip(8) == frames[i]
            && bytes::le8_value(chunks@[i]@) == timestamp_ms + i * (1000int / (fps as int)),
{
    match action {
        PlaybackAction::SendFrames { sequence: _, chunks } => {
            let ms = interval_of(fps);
            law_timed_frame_is_readable(timestamp_ms, ms, frames, i);
            assert(wire::rows(chunks@).len() == chunks@.len());
            assert(wire::rows(chunks@)[i] == chunks@[i]@);
            assert(chunks@[i]@.skip(8) =~= chunks@[i]@.subrange(8, 8 + frames[i].len() as int));
            assert(0 <= i * (1000int / (fps as int))) by (nonlinear_arith)
                requires
                    i >= 0,
                    fps > 0,
            ;
            vstd::arithmetic::div_mod::lemma_small_mod(
                (timestamp_ms + i * ms) as nat,
                0x1_0000_0000_0000_0000nat,
            );
        },
        _ => {},
    }
}

/// A payload that is no list of frames is played as it is, at its time.
pub proof fn law_raw_payloads_are_played(
    sequence: u32,
    timestamp_ms: u64,
    fps: u32,
    data: Seq<u8>,
    action: PlaybackAction,
)
    requires
        is_video_action(sequence, timestamp_ms, fps, data, None, action),
    ensures
        action matches PlaybackAction::SendRaw { sequence: s, chunk } && s == sequence
            && chunk@.skip(8) == data && bytes::le8_value(chunk@) == timestamp_ms,
{
    match action {
        PlaybackAction::SendRaw { sequence: _, chunk } => {
            bytes::lemma_le8_round_trip(timestamp_ms, data);
            assert(chunk@.skip(8) =~= data);
        },
        _ => {},
    }
}

/// Frames are spaced so that a second holds as many as it should, as far as whole
/// milliseconds allow, and at thirty-three milliseconds where no rate is named.
pub proof fn law_frames_fill_their_second(fps: u32)
    ensures
        fps > 0 ==> interval_of(fps) * fps <= 1000 < (interval_of(fps) + 1) * fps,
        fps == 0 ==> interval_of(fps) == 33,
{
    if fps > 0 {
        let f = fps as int;
        let q = 1000int / f;
        vstd::arithmetic::div_mod::lemma_fundamental_div_mod(1000, f);
        assert(q * f <= 1000 < (q + 1) * f) by (nonlinear_arith)
            requires
                1000 == f * q + 1000int % f,
                0 <= 1000int % f < f,
        ;
    }
}

/// What is handed to the video sink: the frames one by one where the payload
/// decoded into frames, else the payload as it is, behind the shard's time stamp.
pub fn video_action(
    sequence: u32,
    timestamp_ms: u64,
    fps: u32,
    data: &Vec<u8>,
    frames: Option<Vec<Vec<u8>>>,
) -> (action: PlaybackAction)
    ensures
        is_video_action(
            sequence,
            timestamp_ms,
            fps,
            data@,
            match frames {
                Some(v) => Some(wire::rows(v@)),
                None => None,
            },
            action,
        ),
{
    match frames {
        Some(v) => PlaybackAction::SendFrames {
            sequence,
            chunks: stamp_frames(timestamp_ms, frame_interval(fps), &v),
        },
        None => {
            let mut chunk = bytes::put_le8(timestamp_ms);
            bytes::extend(&mut chunk, data.as_slice());
            PlaybackAction::SendRaw { sequence, chunk }
        },
    }
}

/// A request on its way to one provider.
#[derive(Debug)]
pub struct ShardRequest {
    pub target: String,
    pub request: RecordingRequest,
}

/// `requests` are those that go out to the providers of a recording.
pub open spec fn are_requests(
    recording_id: Seq<char>,
    providers: Seq<Seq<char>>,
    locator: Option<SealedLocator>,
    did: Seq<char>,
    signing_secret: Seq<u8>,
    requests: Seq<ShardRequest>,
) -> bool {
    match locator {
        Some(SealedLocator::Ready(sealed)) => {
            &&& requests.len() == providers.len()
            &&& forall|i: int|
                0 <= i < requests.len() ==> {
                    &&& (#[trigger] requests[i]).target@ == providers[i]
                    &&& requests[i].request.target_did@ == did
                    &&& requests[i].request.recording_id@ == recording_id
                    &&& requests[i].request.locator@ == sealed@
                    &&& requests[i].request.is_signed_with(signing_secret)
                }
        },
        _ => requests.len() == 0,
    }
}

/// With a sealed locator every provider is asked, each once and for this recording;
/// without one nobody is.
pub proof fn law_every_provider_is_asked(
    recording_id: Seq<char>,
    providers: Seq<Seq<char>>,
    locator: Option<SealedLocator>,
    did: Seq<char>,
    signing_secret: Seq<u8>,
    requests: Seq<ShardRequest>,
)
    requires
        are_requests(recording_id, providers, locator, did, signing_secret, requests),
    ensures
        (locator is Some && locator->0 is Ready) ==> requests.map_values(
            |r: ShardRequest| r.target@,
        ) == providers && (forall|i: int|
            0 <= i < requests.len() ==> (#[trigger] requests[i]).request.recording_id@
                == recording_id && requests[i].request.target_did@ == did),
        !(locator is Some && locator->0 is Ready) ==> requests.len() == 0,
{
    if locator is Some && locator->0 is Ready {
        assert(requests.map_values(|r: ShardRequest| r.target@) =~= providers);
    }
}

/// The requests that go out to the providers of a recording: one to each, in
/// their order, all with the same signed request. The locator is sealed to the
/// requester with the recording's key. Where there is no such key the locator is
/// `None`, and where sealing it failed there is none either: then nobody is asked,
/// for a grant under no key could be opened by anyone.
pub fn request_shards_from_providers(
    recording_id: &String,
    providers: &Vec<String>,
    locator: Option<SealedLocator>,
    did: &String,
    signing_secret: &[u8; 32],
) -> (requests: Vec<ShardRequest>)
    ensures
        are_requests(
            recording_id@,
            crate::text::views(providers@),
            locator,
            did@,
            signing_secret@,
            requests@,
        ),
{
    let mut requests: Vec<ShardRequest> = Vec::new();
    let sealed = match locator {
        Some(sealed) => sealed,
        None => {
            return requests;
        },
    };
    let built = match build_recording_request(recording_id, sealed, did, signing_secret) {
        Ok(request) => request,
        Err(_) => {
            return requests;
        },
    };
    let mut i: usize = 0;
    while i < providers.len()
        invariant
            i <= providers@.len(),
            requests@.len() == i,
            built.is_signed_with(signing_secret@),
            forall|j: int|
                0 <= j < i ==> {
                    &&& (#[trigger] requests@[j]).target@ == providers@[j]@
                    &&& requests@[j].request.target_did@ == built.target_did@
                    &&& requests@[j].request.recording_id@ == built.recording_id@
                    &&& requests@[j].request.locator@ == built.locator@
                    &&& requests@[j].request.signature@ == built.signature@
                },
        decreases providers@.len() - i,
    {
        let mut locator_copy: Vec<u8> = Vec::new();
        bytes::extend(&mut locator_copy, built.locator.as_slice());
        let mut signature_copy: Vec<u8> = Vec::new();
        bytes::extend(&mut signature_copy, built.signature.as_slice());
        assert(locator_copy@ =~= built.locator@);
        assert(signature_copy@ =~= built.signature@);
        requests.push(
            ShardRequest {
                target: providers[i].clone(),
                request: RecordingRequest {
                    target_did: built.target_did.clone(),
                    recording_id: built.recording_id.clone(),
                    locator: locator_copy,
                    signature: signature_copy,
                },
            },
        );
        i += 1;
    }
    assert forall|j: int| 0 <= j < requests@.len() implies (#[trigger] requests@[j]).target@
        == crate::text::views(providers@)[j] by {
        assert(crate::text::views(providers@)[j] == providers@[j]@);
    }
    requests
}

/// The position of a playback in its recording.
pub struct PlaybackCoordinator {
    pub current_sequence: u32,
    /// Number of times the current sequence has been retried without success.
    pub retry_count: u32,
    /// Number of consecutive sequences that were gaps (no shard found).
    pub consecutive_gaps: u32,
    pub stats: PlaybackStats,
    pub finished: bool,
}

impl PlaybackCoordinator {
    /// Sequences start at one, every sequence passed was either found or given
    /// up, and the two patience counters are below their limits until the end.
    pub open spec fn wf(self) -> bool {
        &&& self.current_sequence == 1 + self.stats.shards_found + self.stats.shards_missing
        &&& self.stats.audio_sent + self.stats.decode_failures <= self.stats.shards_found
        &&& self.consecutive_gaps <= self.stats.shards_missing
        &&& self.retry_count < MAX_RETRIES
        &&& self.consecutive_gaps <= MAX_CONSECUTIVE_GAPS
        &&& self.consecutive_gaps == MAX_CONSECUTIVE_GAPS ==> self.finished
    }

    /// The coordinator past a sequence that storage had a shard for.
    pub open spec fn past_found(self) -> Self {
        PlaybackCoordinator {
            current_sequence: (self.current_sequence + 1) as u32,
            retry_count: 0,
            consecutive_gaps: 0,
            stats: PlaybackStats {
                shards_found: (self.stats.shards_found + 1) as u32,
                ..self.stats
            },
            ..self
        }
    }

    /// The coordinator past a found shard whose payload could not be decoded.
    pub open spec fn past_undecodable(self) -> Self {
        PlaybackCoordinator {
            stats: PlaybackStats {
                decode_failures: (self.stats.decode_failures + 1) as u32,
                ..self.past_found().stats
            },
            ..self.past_found()
        }
    }

    /// The coordinator past a sequence that it gave up on.
    pub open spec fn past_missing(self) -> Self {
        PlaybackCoordinator {
            current_sequence: (self.current_sequence + 1) as u32,
            retry_count: 0,
            consecutive_gaps: (self.consecutive_gaps + 1) as u32,
            stats: PlaybackStats {
                shards_missing: (self.stats.shards_missing + 1) as u32,
                ..self.stats
            },
            finished: self.finished || self.consecutive_gaps + 1 >= MAX_CONSECUTIVE_GAPS,
        }
    }

    /// The coordinator after storage had no shard for the current sequence.
    pub open spec fn after_absent(self) -> Self {
        if self.retry_count + 1 >= MAX_RETRIES {
            self.past_missing()
        } else {
            PlaybackCoordinator { retry_count: (self.retry_count + 1) as u32, ..self }
        }
    }

    /// The coordinator after `n` such answers in a row.
    pub open spec fn after_absences(self, n: nat) -> Self
        decreases n,
    {
        if n == 0 {
            self
        } else {
            self.after_absences((n - 1) as nat).after_absent()
        }
    }

    /// Patience is bounded and exact: right after a shard was found, or at the
    /// start, the playback goes on through up to ninety-nine absent answers in a
    /// row, five to a sequence, and ends with the hundredth.
    pub proof fn law_patience(self, n: nat)
        requires
            self.wf(),
            !self.finished,
            self.retry_count == 0,
            self.consecutive_gaps == 0,
            self.current_sequence + MAX_CONSECUTIVE_GAPS <= u32::MAX,
            n <= MAX_RETRIES * MAX_CONSECUTIVE_GAPS,
        ensures
            self.after_absences(n).wf(),
            self.after_absences(n).retry_count == n % (MAX_RETRIES as nat),
            self.after_absences(n).consecutive_gaps == n / (MAX_RETRIES as nat),
            self.after_absences(n).current_sequence == self.current_sequence + n / (
            MAX_RETRIES as nat),
            self.after_absences(n).finished <==> n == MAX_RETRIES * MAX_CONSECUTIVE_GAPS,
        decreases n,
    {
        if n > 0 {
            self.law_patience((n - 1) as nat);
        }
    }

    /// A playback at the first shard.
    pub fn new() -> (coordinator: Self)
        ensures
            coordinator.wf(),
            coordinator.current_sequence == 1,
            coordinator.retry_count == 0,
            coordinator.consecutive_gaps == 0,
            coordinator.stats == (PlaybackStats {
                shards_found: 0,
                shards_missing: 0,
                video_sent: 0,
                audio_sent: 0,
                decode_failures: 0,
            }),
            !coordinator.finished,
    {
        PlaybackCoordinator {
            current_sequence: 1,
            retry_count: 0,
            consecutive_gaps: 0,
            stats: PlaybackStats::default(),
            finished: false,
        }
    }

    fn advance_found(&mut self)
        requires
            old(self).wf(),
            !old(self).finished,
            old(self).current_sequence < u32::MAX,
        ensures
            *final(self) == old(self).past_found(),
            final(self).wf(),
            final(self).stats.audio_sent + final(self).stats.decode_failures
                < final(self).stats.shards_found,
    {
        self.retry_count = 0;
        self.consecutive_gaps = 0;
        self.stats.shards_found = self.stats.shards_found + 1;
        self.current_sequence = self.current_sequence + 1;
    }

    fn give_up_current(&mut self)
        requires
            old(self).wf(),
            !old(self).finished,
            old(self).current_sequence < u32::MAX,
        ensures
            *final(self) == old(self).past_missing(),
            final(self).wf(),
    {
        self.stats.shards_missing = self.stats.shards_missing + 1;
        self.current_sequence = self.current_sequence + 1;
        self.retry_count = 0;
        self.consecutive_gaps = self.consecutive_gaps + 1;
        if self.consecutive_gaps >= MAX_CONSECUTIVE_GAPS {
            self.finished = true;
        }
    }

    /// What an answer of storage does.
    pub open spec fn fetched_effect(
        before: Self,
        after: Self,
        fetched: Fetched,
        action: PlaybackAction,
    ) -> bool {
        match fetched {
            Fetched::NotFound => {
                &&& after == before.after_absent()
                &&& action == (if after.finished {
                    PlaybackAction::Finish
                } else if before.retry_count + 1 >= MAX_RETRIES {
                    PlaybackAction::Fetch
                } else {
                    PlaybackAction::Discover { sequence: before.current_sequence }
                })
            },
            Fetched::Marker => after == before.past_found() && action == PlaybackAction::Fetch,
            Fetched::Video { payload: Decoded::Missing, .. } => after == before.past_found()
                && action == PlaybackAction::Fetch,
            Fetched::Video { payload: Decoded::Failed, .. } => after == before.past_undecodable()
                && action == PlaybackAction::Fetch,
            Fetched::Video { timestamp_ms, fps, payload: Decoded::Data(data) } => {
                &&& after == before.past_found()
                &&& forall|r: Seq<Seq<u8>>|
                    data@ == #[trigger] wire::rows_bytes(r) ==> wire::decoded_rows(data@) == Some(r)
                &&& is_video_action(
                    before.current_sequence,
                    timestamp_ms,
                    fps,
                    data@,
                    wire::decoded_rows(data@),
                    action,
                )
            },
            Fetched::Audio { payload: Decoded::Missing, .. } => after == before.past_found()
                && action == PlaybackAction::Fetch,
            Fetched::Audio { payload: Decoded::Failed, .. } => after == before.past_undecodable()
                && action == PlaybackAction::Fetch,
            Fetched::Audio { sample_rate, channels, payload: Decoded::Data(data) } => {
                &&& after == before.past_found()
                &&& action matches PlaybackAction::SendAudio { sequence, chunk } && sequence
                    == before.current_sequence && chunk@ == audio_chunk(
                    sample_rate,
                    channels,
                    data@,
                )
            },
        }
    }

    /// Whatever storage has for a sequence, the playback moves on to the next one and
    /// counts the shard, and its patience is whole again.
    pub proof fn law_found_shards_move_the_playback_on(
        before: Self,
        after: Self,
        fetched: Fetched,
        action: PlaybackAction,
    )
        requires
            before.wf(),
            before.current_sequence < u32::MAX,
            Self::fetched_effect(before, after, fetched, action),
            !(fetched is NotFound),
        ensures
            after.current_sequence == before.current_sequence + 1,
            after.retry_count == 0,
            after.consecutive_gaps == 0,
            after.stats.shards_found == before.stats.shards_found + 1,
            after.stats.shards_missing == before.stats.shards_missing,
            after.stats.decode_failures == before.stats.decode_failures + (if (fetched matches
                Fetched::Video { payload: Decoded::Failed, .. }) || (fetched matches
                Fetched::Audio { payload: Decoded::Failed, .. }) {
                1int
            } else {
                0int
            }),
            after.stats.video_sent == before.stats.video_sent,
            after.stats.audio_sent == before.stats.audio_sent,
            after.finished == before.finished,
            !(action is Finish) && !(action is Discover),
    {
    }

    /// Decoded audio is played, in full and with its rate and channels in front.
    pub proof fn law_decoded_audio_is_played(
        before: Self,
        after: Self,
        sample_rate: u32,
        channels: u8,
        data: Vec<u8>,
        action: PlaybackAction,
    )
        requires
            Self::fetched_effect(
                before,
                after,
                Fetched::Audio { sample_rate, channels, payload: Decoded::Data(data) },
                action,
            ),
        ensures
            action matches PlaybackAction::SendAudio { sequence, chunk } && sequence
                == before.current_sequence && chunk@.skip(6) == data@ && bytes::le4_value(chunk@)
                == sample_rate && chunk@[4] == channels,
    {
        match action {
            PlaybackAction::SendAudio { sequence: _, chunk } => {
                law_audio_chunk_is_readable(sample_rate, channels, data@);
                assert(chunk@.skip(6) =~= chunk@.subrange(6, 6 + data@.len() as int));
            },
            _ => {},
        }
    }

    /// Decoded video is played: an encoded list of frames frame by frame.
    pub proof fn law_decoded_video_is_played(
        before: Self,
        after: Self,
        timestamp_ms: u64,
        fps: u32,
        data: Vec<u8>,
        frames: Seq<Seq<u8>>,
        action: PlaybackAction,
    )
        requires
            Self::fetched_effect(
                before,
                after,
                Fetched::Video { timestamp_ms, fps, payload: Decoded::Data(data) },
                action,
            ),
            data@ == wire::rows_bytes(frames),
        ensures
            action matches PlaybackAction::SendFrames { sequence, chunks } && sequence
                == before.current_sequence && chunks@.len() == frames.len() && (forall|i: int|
                0 <= i < frames.len() ==> (#[trigger] chunks@[i])@.skip(8) == frames[i]),
    {
        match action {
            PlaybackAction::SendFrames { sequence: _, chunks } => {
                assert(wire::rows(chunks@).len() == chunks@.len());
                assert forall|i: int| 0 <= i < frames.len() implies (#[trigger] chunks@[i])@.skip(8)
                    == frames[i] by {
                    law_timed_frame_is_readable(timestamp_ms, interval_of(fps), frames, i);
                    assert(wire::rows(chunks@)[i] == chunks@[i]@);
                    assert(chunks@[i]@.skip(8) =~= chunks@[i]@.subrange(
                        8,
                        8 + frames[i].len() as int,
                    ));
                }
            },
            _ => {},
        }
    }

    /// A missing shard is looked for four times, and with its fifth absence it is
    /// passed over and counted; the twentieth in a row that is passed over ends the
    /// playback.
    pub proof fn law_missing_shards_are_looked_for(
        before: Self,
        after: Self,
        action: PlaybackAction,
    )
        requires
            before.wf(),
            !before.finished,
            before.current_sequence < u32::MAX,
            Self::fetched_effect(before, after, Fetched::NotFound, action),
        ensures
            before.retry_count < 4 ==> {
                &&& action == PlaybackAction::Discover { sequence: before.current_sequence }
                &&& after.retry_count == before.retry_count + 1
                &&& after.current_sequence == before.current_sequence
                &&& after.stats == before.stats
                &&& !after.finished
            },
            before.retry_count == 4 ==> {
                &&& after.current_sequence == before.current_sequence + 1
                &&& after.retry_count == 0
                &&& after.stats.shards_missing == before.stats.shards_missing + 1
                &&& after.stats.shards_found == before.stats.shards_found
                &&& after.consecutive_gaps == before.consecutive_gaps + 1
                &&& action is Finish <==> before.consecutive_gaps == 19
                &&& after.finished <==> before.consecutive_gaps == 19
                &&& before.consecutive_gaps < 19 ==> action is Fetch
            },
    {
    }

    /// Decides on the answer of storage for the current sequence.
    ///
    /// The sequence is passed before its payload is handed on, so a shard that
    /// cannot be decoded or delivered is never asked for again.
    pub fn on_fetched(&mut self, fetched: Fetched) -> (action: PlaybackAction)
        requires
            old(self).wf(),
            !old(self).finished,
            old(self).current_sequence < u32::MAX,
        ensures
            final(self).wf(),
            Self::fetched_effect(*old(self), *final(self), fetched, action),
    {
        let sequence: u32 = self.current_sequence;
        match fetched {
            Fetched::NotFound => {
                if self.retry_count + 1 >= MAX_RETRIES {
                    self.give_up_current();
                    if self.finished {
                        PlaybackAction::Finish
                    } else {
                        PlaybackAction::Fetch
                    }
                } else {
                    self.retry_count = self.retry_count + 1;
                    PlaybackAction::Discover { sequence }
                }
            },
            Fetched::Marker => {
                self.advance_found();
                PlaybackAction::Fetch
            },
            Fetched::Video { timestamp_ms, fps, payload } => {
                self.advance_found();
                match payload {
                    Decoded::Missing => PlaybackAction::Fetch,
                    Decoded::Failed => {
                        self.stats.decode_failures = self.stats.decode_failures + 1;
                        PlaybackAction::Fetch
                    },
                    Decoded::Data(data) => {
                        let frames = wire::decode_rows(data.as_slice());
                        video_action(sequence, timestamp_ms, fps, &data, frames)
                    },
                }
            },
            Fetched::Audio { sample_rate, channels, payload } => {
                self.advance_found();
                match payload {
                    Decoded::Missing => PlaybackAction::Fetch,
                    Decoded::Failed => {
                        self.stats.decode_failures = self.stats.decode_failures + 1;
                        PlaybackAction::Fetch
                    },
                    Decoded::Data(data) => {
                        let mut chunk = bytes::put_le4(sample_rate);
                        chunk.push(channels);
                        chunk.push(0u8);
                        bytes::extend(&mut chunk, data.as_slice());
                        assert(chunk@ =~= audio_chunk(sample_rate, channels, data@));
                        PlaybackAction::SendAudio { sequence, chunk }
                    },
                }
            },
        }
    }

    /// What the answer of the audio sink does.
    pub open spec fn audio_effect(
        before: Self,
        after: Self,
        accepted: bool,
        action: PlaybackAction,
    ) -> bool {
        &&& accepted ==> after == (PlaybackCoordinator {
            stats: PlaybackStats {
                audio_sent: (before.stats.audio_sent + 1) as u32,
                ..before.stats
            },
            ..before
        }) && action == PlaybackAction::Fetch
        &&& !accepted ==> after == (PlaybackCoordinator { finished: true, ..before }) && action
            == PlaybackAction::Finish
    }

    /// What the answer of the video sink to the frames of a shard does.
    pub open spec fn frames_effect(
        before: Self,
        after: Self,
        accepted: u32,
        offered: u32,
        action: PlaybackAction,
    ) -> bool {
        &&& after == (PlaybackCoordinator {
            stats: PlaybackStats {
                video_sent: (before.stats.video_sent + accepted) as u32,
                ..before.stats
            },
            finished: before.finished || accepted < offered,
            ..before
        })
        &&& action == if accepted < offered {
            PlaybackAction::Finish
        } else {
            PlaybackAction::Fetch
        }
    }

    /// What the answer of the video sink to an undivided payload does.
    pub open spec fn raw_effect(
        before: Self,
        after: Self,
        accepted: bool,
        action: PlaybackAction,
    ) -> bool {
        &&& accepted ==> after == (PlaybackCoordinator {
            stats: PlaybackStats {
                video_sent: (before.stats.video_sent + 1) as u32,
                ..before.stats
            },
            ..before
        }) && action == PlaybackAction::Fetch
        &&& !accepted ==> after == (PlaybackCoordinator { finished: true, ..before }) && action
            == PlaybackAction::Finish
    }

    /// Whatever a sink takes is counted, and the playback goes on exactly while
    /// everything is taken; none of it moves the position.
    pub proof fn law_deliveries_are_counted(
        before: Self,
        audio: Self,
        frames: Self,
        raw: Self,
        taken: bool,
        accepted: u32,
        offered: u32,
        audio_action: PlaybackAction,
        frames_action: PlaybackAction,
        raw_action: PlaybackAction,
    )
        requires
            !before.finished,
            accepted <= offered,
            before.stats.video_sent + accepted <= u32::MAX,
            before.stats.video_sent < u32::MAX,
            before.stats.audio_sent < u32::MAX,
            Self::audio_effect(before, audio, taken, audio_action),
            Self::frames_effect(before, frames, accepted, offered, frames_action),
            Self::raw_effect(before, raw, taken, raw_action),
        ensures
            audio.stats.audio_sent == before.stats.audio_sent + (if taken {
                1int
            } else {
                0int
            }),
            audio.stats.video_sent == before.stats.video_sent,
            raw.stats.video_sent == before.stats.video_sent + (if taken {
                1int
            } else {
                0int
            }),
            raw.stats.audio_sent == before.stats.audio_sent,
            frames.stats.video_sent == before.stats.video_sent + accepted,
            frames.stats.audio_sent == before.stats.audio_sent,
            audio.finished <==> !taken,
            raw.finished <==> !taken,
            frames.finished <==> accepted != offered,
            audio_action is Fetch <==> taken,
            raw_action is Fetch <==> taken,
            frames_action is Fetch <==> accepted == offered,
            !taken ==> audio_action is Finish && raw_action is Finish,
            accepted != offered ==> frames_action is Finish,
            audio.current_sequence == before.current_sequence,
            frames.current_sequence == before.current_sequence,
            raw.current_sequence == before.current_sequence,
    {
    }

    /// The audio sink took the chunk, or refused it, which ends the playback.
    pub fn audio_sent(&mut self, accepted: bool) -> (action: PlaybackAction)
        requires
            old(self).wf(),
            old(self).stats.audio_sent + old(self).stats.decode_failures
                < old(self).stats.shards_found,
        ensures
            final(self).wf(),
            Self::audio_effect(*old(self), *final(self), accepted, action),
    {
        if accepted {
            self.stats.audio_sent = self.stats.audio_sent + 1;
            PlaybackAction::Fetch
        } else {
            self.finished = true;
            PlaybackAction::Finish
        }
    }

    /// The video sink took `accepted` of the `offered` frames of a shard. A frame
    /// that was refused ends the playback.
    pub fn frames_sent(&mut self, accepted: u32, offered: u32) -> (action: PlaybackAction)
        requires
            old(self).wf(),
            accepted <= offered,
            old(self).stats.video_sent + accepted <= u32::MAX,
        ensures
            final(self).wf(),
            Self::frames_effect(*old(self), *final(self), accepted, offered, action),
    {
        self.stats.video_sent = self.stats.video_sent + accepted;
        if accepted < offered {
            self.finished = true;
            PlaybackAction::Finish
        } else {
            PlaybackAction::Fetch
        }
    }

    /// The video sink took an undivided payload, or refused it, which ends the playback.
    pub fn raw_sent(&mut self, accepted: bool) -> (action: PlaybackAction)
        requires
            old(self).wf(),
            old(self).stats.video_sent < u32::MAX,
        ensures
            final(self).wf(),
            Self::raw_effect(*old(self), *final(self), accepted, action),
    {
        if accepted {
            self.stats.video_sent = self.stats.video_sent + 1;
            PlaybackAction::Fetch
        } else {
            self.finished = true;
            PlaybackAction::Finish
        }
    }
}

} // verus!
