//! The microphone: how samples become shards.
use vstd::prelude::*;
use crate::bytes;
use crate::config::HardwareConfig;
use crate::hardware::camera::ShardOutcome;

verus! {

/// How many chunks wait for a slow reader.
pub const AUDIO_BUFFER: usize = 100;

/// The time between two chunks, in milliseconds.
pub const CHUNK_INTERVAL_MS: u64 = 100;

/// The microphone's handle.
#[derive(Debug)]
pub struct PhalanxAudioThread {
    pub sample_rate: u32,
    pub channels: u32,
    pub running: bool,
}

impl PhalanxAudioThread {
    /// Makes the handle. Nothing runs yet.
    pub fn new(config: &HardwareConfig) -> (audio: Self)
        ensures
            audio.sample_rate == config.audio_sample_rate,
            audio.channels == config.audio_channels,
            !audio.running,
    {
        PhalanxAudioThread {
            sample_rate: config.audio_sample_rate,
            channels: config.audio_channels,
            running: false,
        }
    }

    /// Starts the watchdog, unless it runs already.
    pub fn start_watchdog(&mut self) -> (start: bool)
        ensures
            start == !old(self).running,
            *final(self) == (PhalanxAudioThread { running: true, ..*old(self) }),
    {
        let start = !self.running;
        self.running = true;
        start
    }

    pub fn stop(&mut self)
        ensures
            *final(self) == (PhalanxAudioThread { running: false, ..*old(self) }),
    {
        self.running = false;
    }
}

/// The bytes of one second: two for each sample of each channel.
pub open spec fn second_of(config: HardwareConfig) -> int {
    config.audio_sample_rate * config.audio_channels * 2
}

/// A second of sound has two bytes for every sample of every channel, so twice the
/// channels, or twice the rate, take twice the bytes.
pub proof fn law_a_second_grows_with_rate_and_channels(config: HardwareConfig)
    ensures
        config.audio_channels == 1 ==> second_of(config) == 2 * config.audio_sample_rate,
        config.audio_sample_rate == 1 ==> second_of(config) == 2 * config.audio_channels,
        config.audio_channels < u32::MAX ==> second_of(
            HardwareConfig { audio_channels: (config.audio_channels + 1) as u32, ..config },
        ) == second_of(config) + 2 * config.audio_sample_rate,
{
    let (r, c) = (config.audio_sample_rate as int, config.audio_channels as int);
    assert(r * (c + 1) * 2 == r * c * 2 + 2 * r) by (nonlinear_arith);
    assert(c == 1 ==> r * c * 2 == 2 * r) by (nonlinear_arith);
    assert(r == 1 ==> r * c * 2 == 2 * c) by (nonlinear_arith);
}

/// The processor: it gathers samples until there is a second's worth.
pub struct AudioProcessor {
    pub bytes_per_sec: usize,
    pub samples: Vec<u8>,
    pub sequence_id: u32,
}

impl AudioProcessor {
    pub fn new(config: &HardwareConfig) -> (processor: Self)
        requires
            second_of(*config) <= u32::MAX,
        ensures
            processor.bytes_per_sec == second_of(*config),
            processor.samples@.len() == 0,
            processor.sequence_id == 0,
    {
        proof {
            assert(config.audio_sample_rate * config.audio_channels <= u32::MAX) by (nonlinear_arith)
                requires
                    config.audio_sample_rate * config.audio_channels * 2 <= u32::MAX,
            ;
        }
        let bytes_per_sec: u32 = config.audio_sample_rate * config.audio_channels * 2;
        AudioProcessor {
            bytes_per_sec: bytes_per_sec as usize,
            samples: Vec::new(),
            sequence_id: 0,
        }
    }

    /// What a chunk of samples does.
    pub open spec fn heard(
        before: Self,
        after: Self,
        data: Seq<u8>,
        shard: Option<Vec<u8>>,
    ) -> bool {
        let all = before.samples@ + data;
        &&& after.bytes_per_sec == before.bytes_per_sec
        &&& after.sequence_id == before.sequence_id
        &&& match shard {
            Some(chunk) => all.len() >= before.bytes_per_sec && chunk@ == all
                && after.samples@.len() == 0,
            None => all.len() < before.bytes_per_sec && after.samples@ == all,
        }
    }

    /// No sample is lost or heard twice: what came in is in the shard or waits behind
    /// what waited before, and a shard goes out as soon as there is a second of it.
    pub proof fn law_every_sample_is_kept(
        before: Self,
        after: Self,
        data: Seq<u8>,
        shard: Option<Vec<u8>>,
    )
        requires
            Self::heard(before, after, data, shard),
        ensures
            shard is Some <==> before.samples@.len() + data.len() >= before.bytes_per_sec,
            (if shard is Some {
                shard->0@
            } else {
                Seq::empty()
            }) + after.samples@ == before.samples@ + data,
            after.sequence_id == before.sequence_id,
            after.bytes_per_sec == before.bytes_per_sec,
    {
        if shard is Some {
            assert(shard->0@ + after.samples@ =~= before.samples@ + data);
        } else {
            assert(Seq::<u8>::empty() + after.samples@ =~= before.samples@ + data);
        }
    }

    /// Takes in a chunk of samples. Once there is a second's worth, all of it
    /// becomes the shard of the current number.
    pub fn on_frame(&mut self, data: &[u8]) -> (shard: Option<Vec<u8>>)
        ensures
            Self::heard(*old(self), *final(self), data@, shard),
    {
        bytes::extend(&mut self.samples, data);
        if self.samples.len() >= self.bytes_per_sec {
            let mut chunk: Vec<u8> = Vec::new();
            let ghost all = self.samples@;
            chunk.append(&mut self.samples);
            assert(chunk@ =~= all);
            Some(chunk)
        } else {
            None
        }
    }

    /// What the settling of a shard does.
    pub open spec fn settled(
        before: Self,
        after: Self,
        outcome: ShardOutcome,
        stop: bool,
    ) -> bool {
        &&& stop == (outcome == ShardOutcome::ChannelClosed)
        &&& after == (AudioProcessor {
            sequence_id: if outcome == ShardOutcome::Sent || outcome == ShardOutcome::EncodeFailed {
                (before.sequence_id + 1) as u32
            } else {
                before.sequence_id
            },
            ..before
        })
    }

    /// Numbers follow each other: one that was sent, or spent on a shard that could not be
    /// encoded, is followed by the next, and any other is given out again. Nothing but a
    /// closed channel ends the processor.
    pub proof fn law_numbers_follow_each_other(
        before: Self,
        after: Self,
        outcome: ShardOutcome,
        stop: bool,
    )
        requires
            before.sequence_id < u32::MAX,
            Self::settled(before, after, outcome, stop),
        ensures
            outcome == ShardOutcome::Sent ==> after.sequence_id == before.sequence_id + 1,
            outcome == ShardOutcome::EncodeFailed ==> after.sequence_id == before.sequence_id + 1,
            outcome == ShardOutcome::EncryptFailed ==> after.sequence_id == before.sequence_id,
            outcome == ShardOutcome::ChannelClosed ==> after.sequence_id == before.sequence_id,
            stop <==> outcome == ShardOutcome::ChannelClosed,
            after.samples == before.samples,
    {
    }

    /// Settles a shard, and tells whether the processor stops. A number is used
    /// again where encryption failed.
    pub fn settle(&mut self, outcome: ShardOutcome) -> (stop: bool)
        requires
            old(self).sequence_id < u32::MAX,
        ensures
            Self::settled(*old(self), *final(self), outcome, stop),
    {
        match outcome {
            ShardOutcome::Sent | ShardOutcome::EncodeFailed => {
                self.sequence_id = self.sequence_id + 1;
                false
            },
            ShardOutcome::EncryptFailed => false,
            ShardOutcome::ChannelClosed => true,
        }
    }
}

} // verus!
