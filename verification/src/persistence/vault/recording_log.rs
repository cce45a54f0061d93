//! Append-only recording logs: one file per recording, a frame per shard, and
//! an index from sequence numbers to the places of their frames.
//!
//! A frame is the sequence number and the payload length, four bytes each and
//! least significant first, then the payload: a nonce and a ciphertext.
use vstd::prelude::*;
use crate::bytes;
use crate::evidence::Envelope;

verus! {

/// The length of the nonce in front of every ciphertext.
pub const AEAD_NONCE_LEN: usize = 24;

/// The longest payload that a scan takes for sound.
pub const MAX_WAL_CHUNK_BYTES: u32 = 16777216;

/// Sequence number and payload length.
pub const RECORDING_FRAME_HEADER_LEN: usize = 8;

/// A frame in the terms of the contracts.
pub struct FrameView {
    pub sequence_id: u32,
    pub offset: nat,
    pub payload: Seq<u8>,
}

/// A frame of a log, with its place in it.
#[derive(Debug)]
pub struct Frame {
    pub sequence_id: u32,
    pub offset: u64,
    pub payload: Vec<u8>,
}

impl View for Frame {
    type V = FrameView;

    open spec fn view(&self) -> FrameView {
        FrameView {
            sequence_id: self.sequence_id,
            offset: self.offset as nat,
            payload: self.payload@,
        }
    }
}

/// Why a frame could not be read at an offset.
#[derive(Debug, Clone, Copy, PartialEq, Eq, Structural)]
pub enum FrameFault {
    /// The log ends inside the header or the payload.
    UnexpectedEnd,
    /// The payload is too short to hold a nonce.
    TooSmall,
}

/// The bytes of a frame. The length field keeps the low 32 bits of the length.
pub open spec fn frame_bytes(sequence_id: u32, payload: Seq<u8>) -> Seq<u8> {
    bytes::le4(sequence_id) + bytes::le4((payload.len() % 0x1_0000_0000) as u32) + payload
}

/// The sequence number in the header at `at`.
pub open spec fn sequence_at(data: Seq<u8>, at: int) -> u32 {
    bytes::le4_value(data.subrange(at, at + 4)) as u32
}

/// The payload length in the header at `at`.
pub open spec fn length_at(data: Seq<u8>, at: int) -> nat {
    bytes::le4_value(data.subrange(at + 4, at + 8))
}

/// A scan accepts the header at `at`.
pub open spec fn sound_header(data: Seq<u8>, at: int) -> bool {
    &&& 0 <= at
    &&& at + RECORDING_FRAME_HEADER_LEN <= data.len()
    &&& AEAD_NONCE_LEN <= length_at(data, at) <= MAX_WAL_CHUNK_BYTES
}

/// A scan accepts the frame at `at`, payload and all.
pub open spec fn sound_frame(data: Seq<u8>, at: int) -> bool {
    &&& sound_header(data, at)
    &&& at + RECORDING_FRAME_HEADER_LEN + length_at(data, at) <= data.len()
}

/// The place right behind the frame at `at`.
pub open spec fn frame_end(data: Seq<u8>, at: int) -> int {
    at + RECORDING_FRAME_HEADER_LEN + length_at(data, at)
}

/// The frame at `at`.
pub open spec fn frame_at(data: Seq<u8>, at: int) -> FrameView {
    FrameView {
        sequence_id: sequence_at(data, at),
        offset: at as nat,
        payload: data.subrange(at + RECORDING_FRAME_HEADER_LEN, frame_end(data, at)),
    }
}

/// The frames from `at` on, up to the first that is cut short or not sound.
pub open spec fn frames_from(data: Seq<u8>, at: int) -> Seq<FrameView>
    decreases data.len() - at,
{
    if sound_frame(data, at) {
        seq![frame_at(data, at)] + frames_from(data, frame_end(data, at))
    } else {
        Seq::empty()
    }
}

/// `index` with the places of the headers from `at` on. A later frame of the
/// same sequence takes the place of an earlier one, and a last frame whose
/// header is sound counts even where its payload is cut short.
pub open spec fn index_from(data: Seq<u8>, at: int, index: Map<u32, u64>) -> Map<u32, u64>
    decreases data.len() - at,
{
    if !sound_header(data, at) {
        index
    } else if !sound_frame(data, at) {
        index.insert(sequence_at(data, at), at as u64)
    } else {
        index_from(data, frame_end(data, at), index.insert(sequence_at(data, at), at as u64))
    }
}

/// From `at` to the end there are only whole, sound frames.
pub open spec fn well_framed(data: Seq<u8>, at: int) -> bool
    decreases data.len() - at,
{
    at == data.len() || (sound_frame(data, at) && well_framed(data, frame_end(data, at)))
}

/// What reading one frame at `offset` gives: its payload, or why there is none.
pub open spec fn payload_at(data: Seq<u8>, offset: int) -> Result<Seq<u8>, FrameFault> {
    if offset + RECORDING_FRAME_HEADER_LEN > data.len() {
        Err(FrameFault::UnexpectedEnd)
    } else if length_at(data, offset) < AEAD_NONCE_LEN {
        Err(FrameFault::TooSmall)
    } else if frame_end(data, offset) > data.len() {
        Err(FrameFault::UnexpectedEnd)
    } else {
        Ok(data.subrange(offset + RECORDING_FRAME_HEADER_LEN, frame_end(data, offset)))
    }
}

proof fn lemma_frame_bytes(sequence_id: u32, payload: Seq<u8>, before: Seq<u8>, after: Seq<u8>)
    requires
        payload.len() <= u32::MAX,
    ensures
        ({
            let data = before + frame_bytes(sequence_id, payload) + after;
            let at = before.len() as int;
            &&& frame_bytes(sequence_id, payload).len() == 8 + payload.len()
            &&& at + 8 + payload.len() <= data.len()
            &&& sequence_at(data, at) == sequence_id
            &&& length_at(data, at) == payload.len()
            &&& data.subrange(at + 8, frame_end(data, at)) == payload
        }),
{
    let data = before + frame_bytes(sequence_id, payload) + after;
    let at = before.len() as int;
    let n = (payload.len() % 0x1_0000_0000) as u32;
    assert(n == payload.len());
    bytes::lemma_le4_round_trip(sequence_id, Seq::empty());
    bytes::lemma_le4_round_trip(n, Seq::empty());
    assert(data.subrange(at, at + 4) =~= bytes::le4(sequence_id) + Seq::<u8>::empty());
    assert(data.subrange(at + 4, at + 8) =~= bytes::le4(n) + Seq::<u8>::empty());
    assert(data.subrange(at + 8, at + 8 + payload.len()) =~= payload);
}

/// Bytes behind a frame do not change how it reads.
proof fn lemma_extension(data: Seq<u8>, more: Seq<u8>, at: int)
    requires
        0 <= at,
        at + RECORDING_FRAME_HEADER_LEN <= data.len(),
    ensures
        sequence_at(data + more, at) == sequence_at(data, at),
        length_at(data + more, at) == length_at(data, at),
        sound_header(data + more, at) == sound_header(data, at),
        frame_end(data, at) <= data.len() ==> frame_at(data + more, at) == frame_at(data, at),
{
    assert((data + more).subrange(at, at + 4) =~= data.subrange(at, at + 4));
    assert((data + more).subrange(at + 4, at + 8) =~= data.subrange(at + 4, at + 8));
    if frame_end(data, at) <= data.len() {
        assert((data + more).subrange(at + 8, frame_end(data, at)) =~= data.subrange(
            at + 8,
            frame_end(data, at),
        ));
    }
}

/// Scanning a well-framed log with more bytes behind it scans the log, then the rest.
proof fn lemma_scan_extends(data: Seq<u8>, more: Seq<u8>, at: int, index: Map<u32, u64>)
    requires
        0 <= at <= data.len(),
        well_framed(data, at),
    ensures
        frames_from(data + more, at) == frames_from(data, at) + frames_from(
            data + more,
            data.len() as int,
        ),
        index_from(data + more, at, index) == index_from(
            data + more,
            data.len() as int,
            index_from(data, at, index),
        ),
        well_framed(data + more, at) == well_framed(data + more, data.len() as int),
    decreases data.len() - at,
{
    if at == data.len() {
        assert(frames_from(data, at) =~= Seq::<FrameView>::empty());
        assert(Seq::<FrameView>::empty() + frames_from(data + more, at) =~= frames_from(
            data + more,
            at,
        ));
    } else {
        lemma_extension(data, more, at);
        lemma_scan_extends(
            data,
            more,
            frame_end(data, at),
            index.insert(sequence_at(data, at), at as u64),
        );
        assert(frames_from(data + more, at) =~= frames_from(data, at) + frames_from(
            data + more,
            data.len() as int,
        ));
    }
}

/// A frame is read back where it was put, whatever stands before and behind it:
/// reading at its place gives its payload, as long as the payload has a nonce and
/// its length fits the length field.
pub proof fn law_frame_is_read_back(
    before: Seq<u8>,
    sequence_id: u32,
    payload: Seq<u8>,
    after: Seq<u8>,
)
    requires
        24 <= payload.len() <= u32::MAX,
    ensures
        payload_at(before + frame_bytes(sequence_id, payload) + after, before.len() as int) == Ok::<
            Seq<u8>,
            FrameFault,
        >(payload),
        sequence_at(before + frame_bytes(sequence_id, payload) + after, before.len() as int)
            == sequence_id,
{
    lemma_frame_bytes(sequence_id, payload, before, after);
}

/// What was appended is read back: behind any well-framed log, a new frame is
/// the last frame of a scan, the index places its sequence at the old end of
/// the log, and reading there gives its payload. The log stays well framed.
pub proof fn law_append_is_readable(log: Seq<u8>, sequence_id: u32, payload: Seq<u8>)
    requires
        well_framed(log, 0),
        24 <= payload.len() <= 16 * 1024 * 1024,
    ensures
        ({
            let longer = log + frame_bytes(sequence_id, payload);
            &&& well_framed(longer, 0)
            &&& frames_from(longer, 0) == frames_from(log, 0).push(
                FrameView { sequence_id, offset: log.len(), payload },
            )
            &&& index_from(longer, 0, Map::empty()) == index_from(log, 0, Map::empty()).insert(
                sequence_id,
                log.len() as u64,
            )
            &&& payload_at(longer, log.len() as int) == Ok::<Seq<u8>, FrameFault>(payload)
        }),
{
    let frame = frame_bytes(sequence_id, payload);
    let longer = log + frame;
    let at = log.len() as int;
    lemma_frame_bytes(sequence_id, payload, log, Seq::empty());
    assert(log + frame + Seq::<u8>::empty() =~= longer);
    lemma_scan_extends(log, frame, 0, Map::empty());
    assert(sound_frame(longer, at));
    assert(frame_end(longer, at) == longer.len());
    assert(frames_from(longer, longer.len() as int) =~= Seq::<FrameView>::empty());
    assert(frames_from(longer, at) =~= seq![frame_at(longer, at)]);
    assert(frame_at(longer, at) == (FrameView { sequence_id, offset: log.len(), payload }));
    assert(frames_from(longer, 0) =~= frames_from(log, 0).push(frame_at(longer, at)));
    assert(well_framed(longer, longer.len() as int));
    let index = index_from(log, 0, Map::empty());
    let placed = index.insert(sequence_id, at as u64);
    assert(index_from(longer, longer.len() as int, placed) == placed);
    assert(index_from(longer, at, index) == placed);
}

/// An append leaves every frame before it readable at its old place.
pub proof fn law_append_keeps_earlier_frames(log: Seq<u8>, more: Seq<u8>, offset: int)
    requires
        0 <= offset,
        payload_at(log, offset) is Ok,
    ensures
        payload_at(log + more, offset) == payload_at(log, offset),
{
    lemma_extension(log, more, offset);
}

/// A write that a crash cut short hides nothing: whatever part of a frame
/// reached the log, a scan gives exactly the frames before it.
pub proof fn law_torn_tail_is_ignored(
    log: Seq<u8>,
    sequence_id: u32,
    payload: Seq<u8>,
    written: int,
)
    requires
        well_framed(log, 0),
        24 <= payload.len() <= 16 * 1024 * 1024,
        0 <= written < frame_bytes(sequence_id, payload).len(),
    ensures
        frames_from(log + frame_bytes(sequence_id, payload).subrange(0, written), 0) == frames_from(
            log,
            0,
        ),
{
    let frame = frame_bytes(sequence_id, payload);
    let torn = frame.subrange(0, written);
    let data = log + torn;
    let at = log.len() as int;
    lemma_frame_bytes(sequence_id, payload, log, Seq::empty());
    assert(log + frame + Seq::<u8>::empty() =~= log + frame);
    if written >= 8 {
        assert(data.subrange(at + 4, at + 8) =~= (log + frame).subrange(at + 4, at + 8));
    }
    assert(!sound_frame(data, at));
    lemma_scan_extends(log, torn, 0, Map::empty());
    assert(frames_from(data, at) =~= Seq::<FrameView>::empty());
    assert(frames_from(log, 0) + Seq::<FrameView>::empty() =~= frames_from(log, 0));
}

/// The index knows of a shard as soon as its header has reached the log, and of
/// nothing before that.
pub proof fn law_a_whole_header_is_indexed(
    log: Seq<u8>,
    sequence_id: u32,
    payload: Seq<u8>,
    written: int,
)
    requires
        well_framed(log, 0),
        24 <= payload.len() <= 16 * 1024 * 1024,
        0 <= written < 8 + payload.len(),
    ensures
        index_from(log + frame_bytes(sequence_id, payload).subrange(0, written), 0, Map::empty())
            == if written >= 8 {
            index_from(log, 0, Map::empty()).insert(sequence_id, log.len() as u64)
        } else {
            index_from(log, 0, Map::empty())
        },
{
    let frame = frame_bytes(sequence_id, payload);
    let torn = frame.subrange(0, written);
    let data = log + torn;
    let at = log.len() as int;
    lemma_frame_bytes(sequence_id, payload, log, Seq::empty());
    assert(log + frame + Seq::<u8>::empty() =~= log + frame);
    if written >= 8 {
        assert(data.subrange(at, at + 4) =~= (log + frame).subrange(at, at + 4));
        assert(data.subrange(at + 4, at + 8) =~= (log + frame).subrange(at + 4, at + 8));
    }
    lemma_scan_extends(log, torn, 0, Map::empty());
}

/// A frame that is too short for a nonce, or longer than sixteen megabytes, ends the
/// scan: the frames before it are read, and neither it nor anything behind it is.
pub proof fn law_an_unsound_frame_ends_the_scan(
    log: Seq<u8>,
    sequence_id: u32,
    payload: Seq<u8>,
    rest: Seq<u8>,
)
    requires
        well_framed(log, 0),
        payload.len() < 24 || 16 * 1024 * 1024 < payload.len() <= u32::MAX,
    ensures
        frames_from(log + (frame_bytes(sequence_id, payload) + rest), 0) == frames_from(log, 0),
        index_from(log + (frame_bytes(sequence_id, payload) + rest), 0, Map::empty())
            == index_from(log, 0, Map::empty()),
{
    let frame = frame_bytes(sequence_id, payload);
    let at = log.len() as int;
    lemma_frame_bytes(sequence_id, payload, log, rest);
    assert(log + (frame + rest) =~= log + frame + rest);
    lemma_scan_extends(log, frame + rest, 0, Map::empty());
    assert(frames_from(log + (frame + rest), at) =~= Seq::<FrameView>::empty());
    assert(frames_from(log, 0) + Seq::<FrameView>::empty() =~= frames_from(log, 0));
}

/// `index` holds, for every sequence, the place of some readable frame that
/// carries this sequence.
pub open spec fn index_is_faithful(data: Seq<u8>, index: Map<u32, u64>) -> bool {
    forall|s: u32| #[trigger]
        index.dom().contains(s) ==> sound_frame(data, index[s] as int) && sequence_at(
            data,
            index[s] as int,
        ) == s
}

/// The rebuilt index of a well-framed log points only at frames of the right sequence.
pub proof fn law_rebuilt_index_is_faithful(data: Seq<u8>)
    requires
        well_framed(data, 0),
        data.len() <= u64::MAX,
    ensures
        index_is_faithful(data, index_from(data, 0, Map::empty())),
{
    lemma_index_faithful(data, 0, Map::empty());
}

proof fn lemma_index_faithful(data: Seq<u8>, at: int, index: Map<u32, u64>)
    requires
        0 <= at <= data.len(),
        data.len() <= u64::MAX,
        well_framed(data, at),
        index_is_faithful(data, index),
    ensures
        index_is_faithful(data, index_from(data, at, index)),
    decreases data.len() - at,
{
    if at < data.len() {
        let next = index.insert(sequence_at(data, at), at as u64);
        assert(index_is_faithful(data, next));
        lemma_index_faithful(data, frame_end(data, at), next);
    }
}

/// The bytes that an append writes: header, nonce, ciphertext.
pub fn encode_frame(sequence_id: u32, nonce: &[u8], ciphertext: &[u8]) -> (frame: Vec<u8>)
    requires
        nonce@.len() + ciphertext@.len() <= usize::MAX,
    ensures
        frame@ == frame_bytes(sequence_id, nonce@ + ciphertext@),
{
    let payload_len: u32 = ((nonce.len() + ciphertext.len()) as u64 % 0x1_0000_0000) as u32;
    let mut frame = bytes::put_le4(sequence_id);
    let length = bytes::put_le4(payload_len);
    bytes::extend(&mut frame, length.as_slice());
    bytes::extend(&mut frame, nonce);
    bytes::extend(&mut frame, ciphertext);
    assert(frame@ =~= frame_bytes(sequence_id, nonce@ + ciphertext@));
    frame
}

/// Every frame of a log up to the first that is cut short or not sound.
pub fn read_frames(data: &[u8]) -> (frames: Vec<Frame>)
    ensures
        frames@.map_values(|f: Frame| f@) == frames_from(data@, 0),
{
    let mut frames: Vec<Frame> = Vec::new();
    let mut at: usize = 0;
    let end: usize = data.len();
    assert(frames@.map_values(|f: Frame| f@) + frames_from(data@, 0) =~= frames_from(data@, 0));
    loop
        invariant
            end == data@.len(),
            at <= end,
            frames@.map_values(|f: Frame| f@) + frames_from(data@, at as int) == frames_from(
                data@,
                0,
            ),
        ensures
            frames@.map_values(|f: Frame| f@) == frames_from(data@, 0),
        decreases end - at,
    {
        let ghost seen = frames@.map_values(|f: Frame| f@);
        if end - at < RECORDING_FRAME_HEADER_LEN {
            assert(seen + Seq::<FrameView>::empty() =~= seen);
            break;
        }
        let sequence_id: u32 = bytes::get_le4(data, at);
        let length: u32 = bytes::get_le4(data, at + 4);
        if (length as usize) < AEAD_NONCE_LEN || length > MAX_WAL_CHUNK_BYTES || ((end - at
            - RECORDING_FRAME_HEADER_LEN) < length as usize) {
            assert(seen + Seq::<FrameView>::empty() =~= seen);
            break;
        }
        let from: usize = at + RECORDING_FRAME_HEADER_LEN;
        let to: usize = from + length as usize;
        let frame = Frame { sequence_id, offset: at as u64, payload: bytes::slice(data, from, to) };
        proof {
            assert(frame@ == frame_at(data@, at as int));
            assert(frames@.push(frame).map_values(|f: Frame| f@) =~= seen.push(frame@));
            assert(seen.push(frame@) + frames_from(data@, to as int) =~= seen + frames_from(
                data@,
                at as int,
            ));
        }
        frames.push(frame);
        at = to;
    }
    frames
}

/// Reads the frame at `offset`: its nonce and its ciphertext.
pub fn read_frame(data: &[u8], offset: u64) -> (parts: Result<(Vec<u8>, Vec<u8>), FrameFault>)
    ensures
        match parts {
            Ok((nonce, ciphertext)) => {
                &&& payload_at(data@, offset as int) == Ok::<Seq<u8>, FrameFault>(
                    nonce@ + ciphertext@,
                )
                &&& nonce@.len() == AEAD_NONCE_LEN
            },
            Err(fault) => payload_at(data@, offset as int) == Err::<Seq<u8>, FrameFault>(fault),
        },
{
    let end: usize = data.len();
    if offset > end as u64 || (end as u64 - offset) < RECORDING_FRAME_HEADER_LEN as u64 {
        return Err(FrameFault::UnexpectedEnd);
    }
    let at: usize = offset as usize;
    let length: usize = bytes::get_le4(data, at + 4) as usize;
    if length < AEAD_NONCE_LEN {
        return Err(FrameFault::TooSmall);
    }
    let from: usize = at + RECORDING_FRAME_HEADER_LEN;
    if end - from < length {
        return Err(FrameFault::UnexpectedEnd);
    }
    let nonce = bytes::slice(data, from, from + AEAD_NONCE_LEN);
    let ciphertext = bytes::slice(data, from + AEAD_NONCE_LEN, from + length);
    assert(nonce@ + ciphertext@ =~= data@.subrange(
        at + RECORDING_FRAME_HEADER_LEN,
        frame_end(data@, at as int),
    ));
    Ok((nonce, ciphertext))
}

/// Sequence numbers and the places of their frames, in ascending order.
pub struct ShardIndex {
    entries: Vec<(u32, u64)>,
}

impl View for ShardIndex {
    type V = Map<u32, u64>;

    closed spec fn view(&self) -> Map<u32, u64> {
        Map::new(
            |s: u32| exists|i: int| 0 <= i < self.entries@.len() && (#[trigger] self.entries@[i]).0 == s,
            |s: u32| self.entries@[self.place(s)].1,
        )
    }
}

impl ShardIndex {
    closed spec fn place(&self, s: u32) -> int {
        choose|i: int| 0 <= i < self.entries@.len() && (#[trigger] self.entries@[i]).0 == s
    }

    /// The sequence numbers are strictly ascending.
    pub closed spec fn wf(&self) -> bool {
        forall|i: int, j: int|
            0 <= i < j < self.entries@.len() ==> (#[trigger] self.entries@[i]).0 < (
            #[trigger] self.entries@[j]).0
    }

    proof fn lemma_place(&self, i: int)
        requires
            self.wf(),
            0 <= i < self.entries@.len(),
        ensures
            self@.dom().contains(self.entries@[i].0),
            self@[self.entries@[i].0] == self.entries@[i].1,
    {
        let s = self.entries@[i].0;
        let p = self.place(s);
        assert(0 <= p < self.entries@.len() && self.entries@[p].0 == s);
        assert(p == i);
    }

    pub fn new() -> (index: Self)
        ensures
            index.wf(),
            index@ == Map::<u32, u64>::empty(),
    {
        let index = ShardIndex { entries: Vec::new() };
        assert(index@ =~= Map::<u32, u64>::empty());
        index
    }

    /// The number of entries is the number of sequence numbers.
    proof fn lemma_count(&self)
        requires
            self.wf(),
        ensures
            self@.dom().finite(),
            self@.dom().len() == self.entries@.len(),
    {
        let keys = Seq::new(self.entries@.len(), |i: int| self.entries@[i].0);
        assert(keys.no_duplicates());
        keys.unique_seq_to_set();
        vstd::seq_lib::seq_to_set_is_finite(keys);
        assert(self@.dom() =~= keys.to_set()) by {
            assert forall|s: u32| self@.dom().contains(s) implies keys.to_set().contains(s) by {
                let p = self.place(s);
                assert(keys[p] == s);
            }
            assert forall|s: u32| keys.to_set().contains(s) implies self@.dom().contains(s) by {
                let p = keys.index_of(s);
                assert(keys[p] == s);
                self.lemma_place(p);
            }
        }
    }

    /// The number of sequences.
    pub fn len(&self) -> (n: usize)
        requires
            self.wf(),
        ensures
            n == self@.dom().len(),
    {
        proof {
            self.lemma_count();
        }
        self.entries.len()
    }

    /// The first position whose sequence is not below `sequence_id`.
    fn position(&self, sequence_id: u32) -> (p: usize)
        requires
            self.wf(),
        ensures
            p <= self.entries@.len(),
            forall|i: int| 0 <= i < p ==> (#[trigger] self.entries@[i]).0 < sequence_id,
            forall|i: int| p <= i < self.entries@.len() ==> (#[trigger] self.entries@[i]).0 >= sequence_id,
    {
        let mut p: usize = 0;
        while p < self.entries.len() && self.entries[p].0 < sequence_id
            invariant
                self.wf(),
                p <= self.entries@.len(),
                forall|i: int| 0 <= i < p ==> (#[trigger] self.entries@[i]).0 < sequence_id,
            decreases self.entries@.len() - p,
        {
            p += 1;
        }
        p
    }

    /// The place of the frame of `sequence_id`.
    pub fn get(&self, sequence_id: u32) -> (offset: Option<u64>)
        requires
            self.wf(),
        ensures
            match offset {
                Some(o) => self@.dom().contains(sequence_id) && o == self@[sequence_id],
                None => !self@.dom().contains(sequence_id),
            },
    {
        let p: usize = self.position(sequence_id);
        if p < self.entries.len() && self.entries[p].0 == sequence_id {
            proof {
                self.lemma_place(p as int);
            }
            Some(self.entries[p].1)
        } else {
            proof {
                if self@.dom().contains(sequence_id) {
                    let i = self.place(sequence_id);
                    assert(self.entries@[i].0 == sequence_id);
                }
            }
            None
        }
    }

    /// Places `sequence_id` at `offset`.
    pub fn insert(&mut self, sequence_id: u32, offset: u64)
        requires
            old(self).wf(),
        ensures
            final(self).wf(),
            final(self)@ == old(self)@.insert(sequence_id, offset),
    {
        let p: usize = self.position(sequence_id);
        let ghost before = *self;
        if p < self.entries.len() && self.entries[p].0 == sequence_id {
            self.entries.set(p, (sequence_id, offset));
            proof {
                assert(forall|i: int|
                    0 <= i < self.entries@.len() ==> (#[trigger] self.entries@[i]).0
                        == before.entries@[i].0);
                assert forall|s: u32| #[trigger]
                    before@.insert(sequence_id, offset).dom().contains(s) implies self@.dom().contains(
                    s,
                ) && self@[s] == before@.insert(sequence_id, offset)[s] by {
                    if s == sequence_id {
                        self.lemma_place(p as int);
                    } else {
                        let i = before.place(s);
                        before.lemma_place(i);
                        self.lemma_place(i);
                    }
                }
                assert forall|s: u32| #[trigger] self@.dom().contains(s) implies before@.insert(
                    sequence_id,
                    offset,
                ).dom().contains(s) by {
                    let i = self.place(s);
                    before.lemma_place(i);
                }
                assert(self@ =~= before@.insert(sequence_id, offset));
            }
        } else {
            self.entries.insert(p, (sequence_id, offset));
            proof {
                assert(self.wf());
                assert forall|s: u32| #[trigger]
                    before@.insert(sequence_id, offset).dom().contains(s) implies self@.dom().contains(
                    s,
                ) && self@[s] == before@.insert(sequence_id, offset)[s] by {
                    if s == sequence_id {
                        self.lemma_place(p as int);
                    } else {
                        let i = before.place(s);
                        before.lemma_place(i);
                        let j = if i < p { i } else { i + 1 };
                        assert(self.entries@[j] == before.entries@[i]);
                        self.lemma_place(j);
                    }
                }
                assert forall|s: u32| #[trigger] self@.dom().contains(s) implies before@.insert(
                    sequence_id,
                    offset,
                ).dom().contains(s) by {
                    let j = self.place(s);
                    if j != p {
                        let i = if j < p { j } else { j - 1 };
                        assert(self.entries@[j] == before.entries@[i]);
                        before.lemma_place(i);
                    }
                }
                assert(self@ =~= before@.insert(sequence_id, offset));
            }
        }
    }

    /// The highest sequence number.
    pub fn last(&self) -> (sequence_id: Option<u32>)
        requires
            self.wf(),
        ensures
            match sequence_id {
                Some(s) => self@.dom().contains(s) && forall|t: u32| #[trigger]
                    self@.dom().contains(t) ==> t <= s,
                None => self@ == Map::<u32, u64>::empty(),
            },
    {
        let n: usize = self.entries.len();
        if n == 0 {
            assert(self@ =~= Map::<u32, u64>::empty());
            return None;
        }
        let s: u32 = self.entries[n - 1].0;
        proof {
            self.lemma_place(n - 1);
            assert forall|t: u32| #[trigger] self@.dom().contains(t) implies t <= s by {
                let i = self.place(t);
                assert(self.entries@[i].0 == t);
            }
        }
        Some(s)
    }
}

/// The index of a log, from its headers alone.
pub fn rebuild_index(data: &[u8]) -> (index: ShardIndex)
    ensures
        index.wf(),
        index@ == index_from(data@, 0, Map::empty()),
{
    let mut index = ShardIndex::new();
    let mut at: usize = 0;
    let end: usize = data.len();
    loop
        invariant
            end == data@.len(),
            at <= end,
            index.wf(),
            index_from(data@, at as int, index@) == index_from(data@, 0, Map::empty()),
        ensures
            index.wf(),
            index@ == index_from(data@, 0, Map::empty()),
        decreases end - at,
    {
        if end - at < RECORDING_FRAME_HEADER_LEN {
            break;
        }
        let sequence_id: u32 = bytes::get_le4(data, at);
        let length: u32 = bytes::get_le4(data, at + 4);
        if (length as usize) < AEAD_NONCE_LEN || length > MAX_WAL_CHUNK_BYTES {
            break;
        }
        index.insert(sequence_id, at as u64);
        if end - at - RECORDING_FRAME_HEADER_LEN < length as usize {
            break;
        }
        at = at + RECORDING_FRAME_HEADER_LEN + length as usize;
    }
    index
}

/// The shards of `sequence_id`, in their order.
pub open spec fn shards_of(shards: Seq<Envelope>, sequence_id: u32) -> Seq<Envelope> {
    shards.filter(|e: Envelope| e.sequence_id == sequence_id)
}

/// `sorted` holds the shards of `shards` by ascending sequence, those of one
/// sequence in their old order. There is exactly one such arrangement.
pub open spec fn in_sequence_order(sorted: Seq<Envelope>, shards: Seq<Envelope>) -> bool {
    &&& forall|i: int, j: int|
        0 <= i <= j < sorted.len() ==> (#[trigger] sorted[i]).sequence_id <= (
        #[trigger] sorted[j]).sequence_id
    &&& forall|k: u32| #[trigger] shards_of(sorted, k) == shards_of(shards, k)
}

proof fn lemma_insert_in_order(sorted: Seq<Envelope>, p: int, e: Envelope, k: u32)
    requires
        0 <= p <= sorted.len(),
        forall|i: int| 0 <= i < p ==> (#[trigger] sorted[i]).sequence_id < e.sequence_id,
    ensures
        shards_of(sorted.insert(p, e), k) == shards_of(seq![e] + sorted, k),
{
    let f = |x: Envelope| x.sequence_id == k;
    let a = sorted.subrange(0, p);
    let b = sorted.subrange(p, sorted.len() as int);
    assert(sorted =~= a + b);
    assert(sorted.insert(p, e) =~= a + (seq![e] + b));
    assert(seq![e] + sorted =~= seq![e] + (a + b));
    Seq::filter_distributes_over_add(a, seq![e] + b, f);
    Seq::filter_distributes_over_add(seq![e], b, f);
    Seq::filter_distributes_over_add(seq![e], a + b, f);
    Seq::filter_distributes_over_add(a, b, f);
    if k == e.sequence_id {
        a.lemma_all_neg_filter_empty(f);
        assert(a.filter(f) =~= Seq::<Envelope>::empty());
        assert(shards_of(sorted.insert(p, e), k) =~= shards_of(seq![e] + sorted, k));
    } else {
        seq![e].lemma_all_neg_filter_empty(f);
        assert(seq![e].filter(f) =~= Seq::<Envelope>::empty());
        assert(shards_of(sorted.insert(p, e), k) =~= shards_of(seq![e] + sorted, k));
    }
}

/// No shard is lost or made up by the sorting, and none comes before one of a lower
/// sequence.
pub proof fn law_sorting_loses_no_shard(
    sorted: Seq<Envelope>,
    shards: Seq<Envelope>,
    shard: Envelope,
)
    requires
        in_sequence_order(sorted, shards),
    ensures
        sorted.contains(shard) <==> shards.contains(shard),
        forall|i: int, j: int|
            0 <= i < j < sorted.len() ==> (#[trigger] sorted[i]).sequence_id <= (
            #[trigger] sorted[j]).sequence_id,
        sorted.filter(|e: Envelope| e.sequence_id == shard.sequence_id) == shards.filter(
            |e: Envelope| e.sequence_id == shard.sequence_id,
        ),
{
    let k = shard.sequence_id;
    let f = |e: Envelope| e.sequence_id == k;
    assert(shards_of(sorted, k) == shards_of(shards, k));
    if sorted.contains(shard) {
        sorted.lemma_filter_contains(f, sorted.index_of(shard));
        shards.lemma_filter_contains_rev(f, shard);
    }
    if shards.contains(shard) {
        shards.lemma_filter_contains(f, shards.index_of(shard));
        sorted.lemma_filter_contains_rev(f, shard);
    }
}

/// Sorts what a scan of a log gave: file order may differ from sequence order.
pub fn order_by_sequence(shards: Vec<Envelope>) -> (sorted: Vec<Envelope>)
    ensures
        in_sequence_order(sorted@, shards@),
        sorted@.len() == shards@.len(),
{
    let ghost given = shards@;
    let mut rest = shards;
    let mut sorted: Vec<Envelope> = Vec::new();
    assert(given.subrange(given.len() as int, given.len() as int) =~= Seq::<
        Envelope,
    >::empty());
    while rest.len() > 0
        invariant
            rest@ == given.subrange(0, rest@.len() as int),
            rest@.len() <= given.len(),
            sorted@.len() == given.len() - rest@.len(),
            in_sequence_order(
                sorted@,
                given.subrange(rest@.len() as int, given.len() as int),
            ),
        decreases rest@.len(),
    {
        let ghost n = rest@.len();
        let ghost tail = given.subrange(n as int, given.len() as int);
        match rest.pop() {
            Some(e) => {
                let mut p: usize = 0;
                while p < sorted.len() && sorted[p].sequence_id < e.sequence_id
                    invariant
                        p <= sorted@.len(),
                        forall|i: int|
                            0 <= i < p ==> (#[trigger] sorted@[i]).sequence_id < e.sequence_id,
                    decreases sorted@.len() - p,
                {
                    p += 1;
                }
                let ghost before = sorted@;
                sorted.insert(p, e);
                proof {
                    let longer = given.subrange(n - 1, given.len() as int);
                    assert(longer =~= seq![e] + tail);
                    assert forall|k: u32| #[trigger] shards_of(sorted@, k) == shards_of(longer, k) by {
                        lemma_insert_in_order(before, p as int, e, k);
                        let f = |x: Envelope| x.sequence_id == k;
                        Seq::filter_distributes_over_add(seq![e], before, f);
                        Seq::filter_distributes_over_add(seq![e], tail, f);
                        assert(shards_of(before, k) == shards_of(tail, k));
                    }
                    assert(rest@ =~= given.subrange(0, n - 1));
                }
            },
            None => {},
        }
    }
    assert(given.subrange(0, given.len() as int) =~= given);
    sorted
}

} // verus!
