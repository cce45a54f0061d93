//! The camera: how many frames are taken, and how they become shards.
use vstd::prelude::*;
use crate::config::HardwareConfig;
use crate::power::PowerState;

verus! {

/// The interval that stands for "no capture", in milliseconds.
pub const DORMANT_INTERVAL_MS: u64 = 3600000;

/// The size of a frame.
pub const FRAME_WIDTH: u32 = 640;

pub const FRAME_HEIGHT: u32 = 480;

/// Three bytes to a pixel.
pub const FRAME_BYTES: usize = 921600;

/// A frame rate. None made by `new` is zero.
#[derive(Debug, Clone, Copy, PartialEq, Eq, Structural)]
pub struct Fps(pub u32);

impl Fps {
    /// The rate, but at least one.
    pub open spec fn at_least_one(rate: u32) -> Self {
        if rate < 1 {
            Fps(1)
        } else {
            Fps(rate)
        }
    }

    pub fn new(rate: u32) -> (fps: Self)
        ensures
            fps == Self::at_least_one(rate),
    {
        if rate < 1 {
            Fps(1)
        } else {
            Fps(rate)
        }
    }

    /// No frames at all.
    pub fn zero() -> (fps: Self)
        ensures
            fps == Fps(0),
    {
        Fps(0)
    }

    pub fn get(&self) -> (rate: u32)
        ensures
            rate == self.0,
    {
        self.0
    }

    /// The milliseconds between two frames; none where there are no frames.
    pub open spec fn interval(&self) -> Option<u64> {
        if self.0 == 0 {
            None
        } else {
            Some((1000int / self.0 as int) as u64)
        }
    }

    pub fn as_interval(&self) -> (ms: Option<u64>)
        ensures
            ms == self.interval(),
    {
        if self.0 == 0 {
            None
        } else {
            Some(1000 / (self.0 as u64))
        }
    }
}

/// The rate that a power state allows: all, half or a fifth of the base rate,
/// but at least one frame a second, and none in the dormant state.
pub open spec fn fps_for(base: Fps, power: PowerState) -> Fps {
    match power {
        PowerState::Normal => base,
        PowerState::Conserving => Fps::at_least_one((base.0 / 2) as u32),
        PowerState::Leaf => Fps::at_least_one((base.0 / 5) as u32),
        PowerState::Dormant => Fps(0),
    }
}

pub fn target_fps(base: Fps, power: PowerState) -> (fps: Fps)
    ensures
        fps == fps_for(base, power),
{
    match power {
        PowerState::Normal => base,
        PowerState::Conserving => Fps::new(base.0 / 2),
        PowerState::Leaf => Fps::new(base.0 / 5),
        PowerState::Dormant => Fps::zero(),
    }
}

/// Less power never means more frames, and only the dormant state takes none.
pub proof fn law_less_power_fewer_frames(base: Fps)
    requires
        base.0 >= 1,
    ensures
        fps_for(base, PowerState::Conserving).0 <= fps_for(base, PowerState::Normal).0,
        fps_for(base, PowerState::Leaf).0 <= fps_for(base, PowerState::Conserving).0,
        fps_for(base, PowerState::Leaf).0 >= 1,
        fps_for(base, PowerState::Dormant).0 == 0,
{
}

/// What a power state leaves of the base rate: all of it, half of it or a fifth of
/// it, in whole frames, and at least one frame a second but in the dormant state.
pub proof fn law_power_states_take_their_share(base: Fps)
    ensures
        fps_for(base, PowerState::Normal) == base,
        base.0 >= 2 ==> 2 * fps_for(base, PowerState::Conserving).0 <= base.0 < 2 * fps_for(
            base,
            PowerState::Conserving,
        ).0 + 2,
        base.0 >= 5 ==> 5 * fps_for(base, PowerState::Leaf).0 <= base.0 < 5 * fps_for(
            base,
            PowerState::Leaf,
        ).0 + 5,
        base.0 < 2 ==> fps_for(base, PowerState::Conserving).0 == 1,
        base.0 < 5 ==> fps_for(base, PowerState::Leaf).0 == 1,
        fps_for(base, PowerState::Dormant).0 == 0,
{
}

/// The interval of a rate is the longest that lets all frames of a second happen
/// in it.
pub proof fn law_intervals_fill_the_second(fps: Fps)
    ensures
        fps.0 == 0 <==> fps.interval() is None,
        fps.0 > 0 ==> fps.interval()->0 * fps.0 <= 1000 < (fps.interval()->0 + 1) * fps.0,
{
    if fps.0 > 0 {
        let r = fps.0 as int;
        let ms = 1000int / r;
        assert(ms * r <= 1000 && 1000 < (ms + 1) * r) by (nonlinear_arith)
            requires
                r > 0,
                ms == 1000int / r,
        ;
        assert(0 <= ms <= 1000) by (nonlinear_arith)
            requires
                r > 0,
                ms == 1000int / r,
        ;
    }
}

/// The next interval: a higher rate is taken at once, a lower one half way at a
/// time.
pub open spec fn next_interval(current_ms: u64, target: Fps) -> int {
    match target.interval() {
        None => DORMANT_INTERVAL_MS as int,
        Some(goal) => if goal <= current_ms {
            goal as int
        } else {
            current_ms + (goal - current_ms) / 2
        },
    }
}

pub fn compute_adaptive_interval(current_ms: u64, target: Fps) -> (ms: u64)
    ensures
        ms == next_interval(current_ms, target),
{
    match target.as_interval() {
        None => DORMANT_INTERVAL_MS,
        Some(goal) => {
            if goal <= current_ms {
                goal
            } else {
                current_ms + (goal - current_ms) / 2
            }
        },
    }
}

/// Ramping up is instant; ramping down goes half of the way that is left, and
/// never past the goal.
pub proof fn law_ramp_is_asymmetric(current_ms: u64, target: Fps)
    requires
        target.0 >= 1,
    ensures
        target.interval()->0 <= current_ms ==> next_interval(current_ms, target)
            == target.interval()->0,
        target.interval()->0 > current_ms ==> {
            &&& current_ms <= next_interval(current_ms, target) < target.interval()->0
            &&& target.interval()->0 - next_interval(current_ms, target) <= (
            target.interval()->0 - current_ms + 1) / 2
        },
{
}

/// A camera that takes no frames looks again after an hour.
pub proof fn law_a_camera_without_frames_rests_an_hour(current_ms: u64, target: Fps)
    requires
        target.0 == 0,
    ensures
        next_interval(current_ms, target) == 60 * 60 * 1000,
{
}

/// A raw frame.
#[derive(Debug)]
pub struct VideoFrame {
    pub data: Vec<u8>,
    pub timestamp: u64,
    pub sequence: u64,
    pub width: u32,
    pub height: u32,
}

/// The driver: it stamps frames by the time that has passed since it was
/// connected, so that a change of the system's clock does not show.
#[derive(Debug)]
pub struct CameraDriver {
    pub fps_interval_ms: u64,
    pub start_ms: u64,
    pub frame_counter: u64,
}

impl CameraDriver {
    pub fn connect(fps: u32, start_ms: u64) -> (driver: Self)
        requires
            fps > 0,
        ensures
            driver.fps_interval_ms == 1000int / fps as int,
            driver.start_ms == start_ms,
            driver.frame_counter == 0,
    {
        CameraDriver { fps_interval_ms: 1000 / (fps as u64), start_ms, frame_counter: 0 }
    }

    /// What a capture gives.
    pub open spec fn captured(before: Self, after: Self, elapsed_ms: u64, frame: VideoFrame) -> bool {
        &&& after == (CameraDriver {
            frame_counter: (before.frame_counter + 1) as u64,
            ..before
        })
        &&& frame.timestamp == before.start_ms + elapsed_ms
        &&& frame.sequence == before.frame_counter + 1
        &&& frame.width == FRAME_WIDTH
        &&& frame.height == FRAME_HEIGHT
        &&& frame.data@.len() == FRAME_BYTES
        &&& frame.data@[0] == before.frame_counter % 255
        &&& forall|i: int| 0 < i < FRAME_BYTES ==> #[trigger] frame.data@[i] == 0
    }

    /// Frames are numbered without a gap, and are as far apart in their stamps as
    /// in the time that passed.
    pub proof fn law_frames_follow_each_other(
        before: Self,
        between: Self,
        after: Self,
        first_ms: u64,
        second_ms: u64,
        first: VideoFrame,
        second: VideoFrame,
    )
        requires
            before.frame_counter < u64::MAX - 1,
            Self::captured(before, between, first_ms, first),
            Self::captured(between, after, second_ms, second),
        ensures
            second.sequence == first.sequence + 1,
            second.timestamp - first.timestamp == second_ms - first_ms,
            second.data@.len() == 3 * second.width * second.height,
            first.data@ != second.data@,
    {
        assert(first.data@[0] != second.data@[0]) by {
            let n = before.frame_counter;
            assert(n % 255 != (n + 1) % 255);
        }
    }

    /// Takes a frame: a black picture in which the first byte counts.
    pub fn capture_frame(&mut self, elapsed_ms: u64) -> (frame: VideoFrame)
        requires
            old(self).frame_counter < u64::MAX,
            old(self).start_ms + elapsed_ms <= u64::MAX,
        ensures
            Self::captured(*old(self), *final(self), elapsed_ms, frame),
    {
        let mut data: Vec<u8> = Vec::new();
        data.push((self.frame_counter % 255) as u8);
        while data.len() < FRAME_BYTES
            invariant
                1 <= data@.len() <= FRAME_BYTES,
                data@[0] == self.frame_counter % 255,
                forall|i: int| 0 < i < data@.len() ==> #[trigger] data@[i] == 0,
            decreases FRAME_BYTES - data@.len(),
        {
            data.push(0);
        }
        self.frame_counter = self.frame_counter + 1;
        VideoFrame {
            data,
            timestamp: self.start_ms + elapsed_ms,
            sequence: self.frame_counter,
            width: FRAME_WIDTH,
            height: FRAME_HEIGHT,
        }
    }
}

/// The camera's handle.
#[derive(Debug)]
pub struct PhalanxCameraThread {
    pub fps: Fps,
    pub running: bool,
    /// How many frames wait for a slow reader.
    pub buffer: usize,
}

impl PhalanxCameraThread {
    /// Makes the handle, with room for about two seconds of frames. Nothing runs yet.
    pub fn new(config: &HardwareConfig) -> (camera: Self)
        requires
            config.camera_fps * 2 <= usize::MAX,
        ensures
            camera.fps == Fps(config.camera_fps),
            !camera.running,
            camera.buffer == config.camera_fps * 2,
    {
        PhalanxCameraThread {
            fps: Fps(config.camera_fps),
            running: false,
            buffer: config.camera_fps as usize * 2,
        }
    }

    /// Starts the watchdog, unless it runs already.
    pub fn start_watchdog(&mut self) -> (start: bool)
        ensures
            start == !old(self).running,
            *final(self) == (PhalanxCameraThread { running: true, ..*old(self) }),
    {
        let start = !self.running;
        self.running = true;
        start
    }

    pub fn stop(&mut self)
        ensures
            *final(self) == (PhalanxCameraThread { running: false, ..*old(self) }),
    {
        self.running = false;
    }
}

/// What became of a shard.
#[derive(Debug, Clone, Copy, PartialEq, Eq, Structural)]
pub enum ShardOutcome {
    EncodeFailed,
    EncryptFailed,
    Sent,
    ChannelClosed,
}

/// What a frame leads to.
#[derive(Debug)]
pub enum BatchAction {
    /// The node is dormant: the frame is lost on purpose.
    Dropped,
    Waiting,
    /// These frames become the shard of that number.
    Emit { frames: Vec<Vec<u8>>, sequence_id: u32, fps: Fps },
}

/// The processor: it gathers compressed frames until there is a second's worth.
pub struct CameraProcessor {
    pub base_fps: Fps,
    pub frames: Vec<Vec<u8>>,
    pub sequence_id: u32,
}

/// A step in the life of a processor: a frame and what it led to, or a shard that
/// was settled.
#[derive(Debug)]
pub enum CameraStep {
    Frame { power: Option<PowerState>, jpeg: Option<Vec<u8>>, action: BatchAction },
    Settled { outcome: ShardOutcome, stop: bool },
}

impl CameraProcessor {
    pub fn new(base_fps: Fps) -> (processor: Self)
        ensures
            processor.base_fps == base_fps,
            processor.frames@.len() == 0,
            processor.sequence_id == 0,
    {
        CameraProcessor { base_fps, frames: Vec::new(), sequence_id: 0 }
    }

    /// The rate in force: that of the power state, or the base rate where nobody
    /// watches the power.
    pub open spec fn effective_fps(&self, power: Option<PowerState>) -> Fps {
        match power {
            Some(p) => fps_for(self.base_fps, p),
            None => self.base_fps,
        }
    }

    /// The frames gathered once one more was compressed, if it could be.
    pub open spec fn gathered(&self, jpeg: Option<Vec<u8>>) -> Seq<Vec<u8>> {
        match jpeg {
            Some(j) => self.frames@.push(j),
            None => self.frames@,
        }
    }

    /// What a frame does.
    pub open spec fn frame_effect(
        before: Self,
        after: Self,
        power: Option<PowerState>,
        jpeg: Option<Vec<u8>>,
        action: BatchAction,
    ) -> bool {
        let fps = before.effective_fps(power);
        &&& after.base_fps == before.base_fps
        &&& after.sequence_id == before.sequence_id
        &&& if power is Some && fps.0 == 0 {
            after == before && action is Dropped
        } else if before.gathered(jpeg).len() >= fps.0 {
            &&& after.frames@.len() == 0
            &&& action matches BatchAction::Emit { frames, sequence_id, fps: rate } && {
                &&& frames@ == before.gathered(jpeg)
                &&& sequence_id == before.sequence_id
                &&& rate == fps
            }
        } else {
            after.frames@ == before.gathered(jpeg) && action is Waiting
        }
    }

    /// The frames that an action hands on.
    pub open spec fn handed_on(action: BatchAction) -> Seq<Vec<u8>> {
        match action {
            BatchAction::Emit { frames, sequence_id: _, fps: _ } => frames@,
            _ => Seq::empty(),
        }
    }

    /// The frames that a run of actions hands on, in order.
    pub open spec fn all_handed_on(actions: Seq<BatchAction>) -> Seq<Vec<u8>>
        decreases actions.len(),
    {
        if actions.len() == 0 {
            Seq::empty()
        } else {
            Self::all_handed_on(actions.drop_last()) + Self::handed_on(actions.last())
        }
    }

    /// The frames that could be compressed, in order.
    pub open spec fn compressed(jpegs: Seq<Option<Vec<u8>>>) -> Seq<Vec<u8>>
        decreases jpegs.len(),
    {
        if jpegs.len() == 0 {
            Seq::empty()
        } else {
            match jpegs.last() {
                Some(j) => Self::compressed(jpegs.drop_last()).push(j),
                None => Self::compressed(jpegs.drop_last()),
            }
        }
    }

    /// `states` is a run of a processor that takes in one frame after another.
    pub open spec fn is_run(
        states: Seq<CameraProcessor>,
        powers: Seq<Option<PowerState>>,
        jpegs: Seq<Option<Vec<u8>>>,
        actions: Seq<BatchAction>,
    ) -> bool {
        &&& states.len() == jpegs.len() + 1
        &&& powers.len() == jpegs.len()
        &&& actions.len() == jpegs.len()
        &&& forall|i: int|
            0 <= i < jpegs.len() ==> Self::frame_effect(
                states[i],
                states[i + 1],
                powers[i],
                #[trigger] jpegs[i],
                actions[i],
            )
    }

    /// Load sheds capture, never what was captured: as long as frames are taken at
    /// all, every frame that could be compressed is handed on or still held, each
    /// once and in its order, whatever the power state does meanwhile.
    pub proof fn law_captured_frames_survive(
        states: Seq<CameraProcessor>,
        powers: Seq<Option<PowerState>>,
        jpegs: Seq<Option<Vec<u8>>>,
        actions: Seq<BatchAction>,
    )
        requires
            Self::is_run(states, powers, jpegs, actions),
            forall|i: int| 0 <= i < actions.len() ==> (#[trigger] actions[i]) !is Dropped,
        ensures
            Self::all_handed_on(actions) + states.last().frames@ == states[0].frames@
                + Self::compressed(jpegs),
        decreases jpegs.len(),
    {
        if jpegs.len() == 0 {
            assert(Self::all_handed_on(actions) + states.last().frames@ =~= states[0].frames@
                + Self::compressed(jpegs));
        } else {
            let n = jpegs.len() - 1;
            let earlier = states.drop_last();
            assert forall|i: int| 0 <= i < n implies Self::frame_effect(
                earlier[i],
                earlier[i + 1],
                powers.drop_last()[i],
                #[trigger] jpegs.drop_last()[i],
                actions.drop_last()[i],
            ) by {
                assert(jpegs[i] == jpegs.drop_last()[i]);
            }
            assert forall|i: int| 0 <= i < actions.drop_last().len() implies (
            #[trigger] actions.drop_last()[i]) !is Dropped by {
                assert(actions[i] !is Dropped);
            }
            Self::law_captured_frames_survive(
                earlier,
                powers.drop_last(),
                jpegs.drop_last(),
                actions.drop_last(),
            );
            let before = states[n];
            assert(earlier.last() == before);
            assert(jpegs[n] == jpegs.last());
            assert(actions[n] !is Dropped);
            assert(Self::handed_on(actions.last()) + states.last().frames@ =~= before.gathered(
                jpegs.last(),
            ));
            assert(Self::all_handed_on(actions) + states.last().frames@ =~= Self::all_handed_on(
                actions.drop_last(),
            ) + before.gathered(jpegs.last()));
            assert(Self::all_handed_on(actions.drop_last()) + before.gathered(jpegs.last())
                =~= states[0].frames@ + Self::compressed(jpegs)) by {
                let head = Self::all_handed_on(actions.drop_last());
                assert(head + before.frames@ == states[0].frames@ + Self::compressed(
                    jpegs.drop_last(),
                ));
                match jpegs.last() {
                    Some(j) => {
                        assert(head + before.frames@.push(j) =~= (head + before.frames@).push(j));
                        assert((states[0].frames@ + Self::compressed(jpegs.drop_last())).push(j)
                            =~= states[0].frames@ + Self::compressed(jpegs.drop_last()).push(j));
                    },
                    None => {},
                }
            }
        }
    }

    /// What the settling of a shard does.
    pub open spec fn settled(before: Self, after: Self, outcome: ShardOutcome, stop: bool) -> bool {
        &&& stop == (outcome == ShardOutcome::ChannelClosed)
        &&& after == (CameraProcessor {
            sequence_id: if outcome == ShardOutcome::Sent || outcome
                == ShardOutcome::EncodeFailed {
                (before.sequence_id + 1) as u32
            } else {
                before.sequence_id
            },
            ..before
        })
    }

    /// `states` is a life of a processor, in which frames come in and shards are
    /// settled.
    pub open spec fn is_life(states: Seq<CameraProcessor>, steps: Seq<CameraStep>) -> bool {
        &&& states.len() == steps.len() + 1
        &&& forall|i: int|
            0 <= i < steps.len() ==> match #[trigger] steps[i] {
                CameraStep::Frame { power, jpeg, action } => Self::frame_effect(
                    states[i],
                    states[i + 1],
                    power,
                    jpeg,
                    action,
                ),
                CameraStep::Settled { outcome, stop } => Self::settled(
                    states[i],
                    states[i + 1],
                    outcome,
                    stop,
                ),
            }
    }

    /// The shards whose number is used up: those sent, and those that could not be
    /// encoded.
    pub open spec fn used_up(steps: Seq<CameraStep>) -> Seq<CameraStep> {
        steps.filter(
            |step: CameraStep|
                step matches CameraStep::Settled { outcome, .. } && (outcome == ShardOutcome::Sent
                    || outcome == ShardOutcome::EncodeFailed),
        )
    }

    /// Shards are numbered in turn: a batch carries the number of shards that were
    /// settled before it, so those sent carry 0, 1, 2 and so on.
    pub proof fn law_shards_are_numbered_in_turn(
        states: Seq<CameraProcessor>,
        steps: Seq<CameraStep>,
    )
        requires
            Self::is_life(states, steps),
            states[0].sequence_id == 0,
            steps.len() <= u32::MAX,
        ensures
            states.last().sequence_id == Self::used_up(steps).len(),
            forall|i: int|
                0 <= i < steps.len() ==> ((#[trigger] steps[i]) matches CameraStep::Frame {
                    action: BatchAction::Emit { sequence_id, .. },
                    ..
                } ==> sequence_id == Self::used_up(steps.subrange(0, i)).len()),
        decreases steps.len(),
    {
        reveal(Seq::filter);
        if steps.len() > 0 {
            let n = steps.len() - 1;
            let earlier = steps.drop_last();
            let before = states.drop_last();
            assert forall|i: int| 0 <= i < earlier.len() implies match #[trigger] earlier[i] {
                CameraStep::Frame { power, jpeg, action } => Self::frame_effect(
                    before[i],
                    before[i + 1],
                    power,
                    jpeg,
                    action,
                ),
                CameraStep::Settled { outcome, stop } => Self::settled(
                    before[i],
                    before[i + 1],
                    outcome,
                    stop,
                ),
            } by {
                assert(earlier[i] == steps[i]);
            }
            Self::law_shards_are_numbered_in_turn(before, earlier);
            assert(before.last() == states[n]);
            assert(steps[n] == steps.last());
            assert(Self::used_up(earlier).len() <= earlier.len()) by {
                earlier.lemma_filter_len(
                    |step: CameraStep|
                        step matches CameraStep::Settled { outcome, .. } && (outcome
                            == ShardOutcome::Sent || outcome == ShardOutcome::EncodeFailed),
                );
            }
            assert forall|i: int| 0 <= i < steps.len() implies ((
            #[trigger] steps[i]) matches CameraStep::Frame {
                action: BatchAction::Emit { sequence_id, .. },
                ..
            } ==> sequence_id == Self::used_up(steps.subrange(0, i)).len()) by {
                if i < n {
                    assert(earlier[i] == steps[i]);
                    assert(earlier.subrange(0, i) =~= steps.subrange(0, i));
                } else {
                    assert(steps.subrange(0, n) =~= earlier);
                }
            }
        }
    }

    /// Two batches with a sent shard between them never carry the same number.
    pub proof fn law_sent_numbers_are_not_used_again(
        first: Self,
        sent: Self,
        second: Self,
        after: Self,
        power: Option<PowerState>,
        jpeg: Option<Vec<u8>>,
        later_power: Option<PowerState>,
        later_jpeg: Option<Vec<u8>>,
        action: BatchAction,
        later: BatchAction,
        stop: bool,
    )
        requires
            Self::frame_effect(first, sent, power, jpeg, action),
            action is Emit,
            sent.sequence_id < u32::MAX,
            Self::settled(sent, second, ShardOutcome::Sent, stop),
            Self::frame_effect(second, after, later_power, later_jpeg, later),
            later is Emit,
        ensures
            !stop,
            later->sequence_id == action->sequence_id + 1,
    {
    }

    /// A shard is a second of frames: below the rate in force a frame is held, and
    /// the one that makes it a second sends all of them on, in their order, with
    /// that rate. Nothing is held then.
    pub proof fn law_a_batch_is_a_second(
        before: Self,
        after: Self,
        power: Option<PowerState>,
        jpeg: Vec<u8>,
        action: BatchAction,
    )
        requires
            Self::frame_effect(before, after, power, Some(jpeg), action),
            power !is Some || power->0 != PowerState::Dormant,
            before.base_fps.0 >= 1,
        ensures
            ({
                let rate = match power {
                    None => before.base_fps.0 as int,
                    Some(PowerState::Normal) => before.base_fps.0 as int,
                    Some(PowerState::Conserving) => if before.base_fps.0 < 2 {
                        1
                    } else {
                        before.base_fps.0 as int / 2
                    },
                    _ => if before.base_fps.0 < 5 {
                        1
                    } else {
                        before.base_fps.0 as int / 5
                    },
                };
                &&& action is Emit <==> before.frames@.len() + 1 >= rate
                &&& action matches BatchAction::Emit { frames, fps, .. } ==> frames@
                    == before.frames@.push(jpeg) && fps.0 == rate && after.frames@.len() == 0
                &&& !(action is Emit) ==> action is Waiting && after.frames@ == before.frames@.push(
                    jpeg,
                )
            }),
    {
    }

    /// A dormant node takes no frame, and loses none that it holds.
    pub proof fn law_dormant_nodes_take_nothing(
        before: Self,
        after: Self,
        jpeg: Option<Vec<u8>>,
        action: BatchAction,
    )
        requires
            Self::frame_effect(before, after, Some(PowerState::Dormant), jpeg, action),
        ensures
            action is Dropped,
            after == before,
    {
    }

    /// Whether frames are taken at all at the moment.
    pub fn captures(&self, power: Option<PowerState>) -> (b: bool)
        ensures
            b == !(power is Some && self.effective_fps(power).0 == 0),
    {
        match power {
            Some(p) => target_fps(self.base_fps, p).0 != 0,
            None => true,
        }
    }

    /// Takes in a frame, in its compressed form where that worked.
    pub fn on_frame(&mut self, power: Option<PowerState>, jpeg: Option<Vec<u8>>) -> (action:
        BatchAction)
        ensures
            Self::frame_effect(*old(self), *final(self), power, jpeg, action),
    {
        let fps = match power {
            Some(p) => {
                let target = target_fps(self.base_fps, p);
                if target.0 == 0 {
                    return BatchAction::Dropped;
                }
                target
            },
            None => self.base_fps,
        };
        match jpeg {
            Some(j) => {
                self.frames.push(j);
            },
            None => {},
        }
        if self.frames.len() as u64 >= fps.0 as u64 {
            let mut frames: Vec<Vec<u8>> = Vec::new();
            let ghost all = self.frames@;
            frames.append(&mut self.frames);
            assert(frames@ =~= all);
            BatchAction::Emit { frames, sequence_id: self.sequence_id, fps }
        } else {
            BatchAction::Waiting
        }
    }

    /// Settles a shard, and tells whether the processor stops. A number is used
    /// again where encryption failed: nothing of that shard exists.
    pub fn settle(&mut self, outcome: ShardOutcome) -> (stop: bool)
        requires
            old(self).sequence_id < u32::MAX,
        ensures
            Self::settled(*old(self), *final(self), outcome, stop),
    {
        match outcome {
            ShardOutcome::Sent | ShardOutcome::EncodeFailed => {
                self.sequence_id = self.sequence_id + 1;
                false
            },
            ShardOutcome::EncryptFailed => false,
            ShardOutcome::ChannelClosed => true,
        }
    }
}

} // verus!
