//! The write-ahead log of chunks that are not yet a recording, and the sealed
//! files beside it: salvaged egress, workbench state and revocations.
use vstd::prelude::*;
use crate::bytes;
use crate::evidence::ShardError;
use crate::lists;
use crate::persistence::vault::recording_log::{AEAD_NONCE_LEN, MAX_WAL_CHUNK_BYTES};
use crate::wire;

verus! {

/// The largest salvage file that is read back.
pub const MAX_EGRESS_SALVAGE_BYTES: u64 = 67108864;

/// A log of this size takes no further chunk.
pub const MAX_WAL_AGGREGATE_BYTES: u64 = 536870912;

/// The largest workbench state that is read back.
pub const MAX_WORKBENCH_STATE_BYTES: u64 = 268435456;

/// The bytes of a chunk in the log: its length, then the sealed chunk. The
/// length field keeps the low 32 bits of the length.
pub open spec fn wal_frame(payload: Seq<u8>) -> Seq<u8> {
    bytes::le4((payload.len() % 0x1_0000_0000) as u32) + payload
}

/// The length field at `at`.
pub open spec fn wal_length(data: Seq<u8>, at: int) -> nat {
    bytes::le4_value(data.subrange(at, at + 4))
}

/// The place right behind the chunk at `at`.
pub open spec fn wal_end(data: Seq<u8>, at: int) -> int {
    at + 4 + wal_length(data, at)
}

/// A chunk of this length is kept; one of another length is stepped over.
pub open spec fn plausible_length(n: nat) -> bool {
    AEAD_NONCE_LEN <= n <= MAX_WAL_CHUNK_BYTES
}

/// The sealed chunks from `at` on. A chunk of an implausible length is stepped
/// over, and one that the log ends inside of ends the scan.
pub open spec fn chunks_from(data: Seq<u8>, at: int) -> Seq<Seq<u8>>
    decreases data.len() - at,
{
    if at < 0 || at + 4 > data.len() || wal_end(data, at) > data.len() {
        Seq::empty()
    } else if plausible_length(wal_length(data, at)) {
        seq![data.subrange(at + 4, wal_end(data, at))] + chunks_from(data, wal_end(data, at))
    } else {
        chunks_from(data, wal_end(data, at))
    }
}

/// From `at` to the end, every length field is followed by that many bytes.
pub open spec fn wal_is_whole(data: Seq<u8>, at: int) -> bool
    decreases data.len() - at,
{
    at == data.len() || (0 <= at && at + 4 <= data.len() && wal_end(data, at) <= data.len()
        && wal_is_whole(data, wal_end(data, at)))
}

proof fn lemma_wal_extends(data: Seq<u8>, more: Seq<u8>, at: int)
    requires
        0 <= at <= data.len(),
        wal_is_whole(data, at),
    ensures
        chunks_from(data + more, at) == chunks_from(data, at) + chunks_from(
            data + more,
            data.len() as int,
        ),
        wal_is_whole(data + more, at) == wal_is_whole(data + more, data.len() as int),
    decreases data.len() - at,
{
    let tail = chunks_from(data + more, data.len() as int);
    if at == data.len() {
        assert(chunks_from(data, at) =~= Seq::<Seq<u8>>::empty());
        assert(Seq::<Seq<u8>>::empty() + tail =~= tail);
    } else {
        assert((data + more).subrange(at, at + 4) =~= data.subrange(at, at + 4));
        assert((data + more).subrange(at + 4, wal_end(data, at)) =~= data.subrange(
            at + 4,
            wal_end(data, at),
        ));
        lemma_wal_extends(data, more, wal_end(data, at));
        assert(chunks_from(data + more, at) =~= chunks_from(data, at) + tail);
    }
}

/// What was logged is recovered: a chunk written behind a whole log is the last
/// chunk that a recovery reads, after all those before it.
pub proof fn law_logged_chunk_is_recovered(log: Seq<u8>, payload: Seq<u8>)
    requires
        wal_is_whole(log, 0),
        24 <= payload.len() <= 16 * 1024 * 1024,
    ensures
        wal_is_whole(log + wal_frame(payload), 0),
        chunks_from(log + wal_frame(payload), 0) == chunks_from(log, 0).push(payload),
{
    let data = log + wal_frame(payload);
    let at = log.len() as int;
    let n = (payload.len() % 0x1_0000_0000) as u32;
    assert(n == payload.len());
    bytes::lemma_le4_round_trip(n, Seq::empty());
    assert(data.subrange(at, at + 4) =~= bytes::le4(n) + Seq::<u8>::empty());
    assert(data.subrange(at + 4, at + 4 + payload.len()) =~= payload);
    assert(wal_end(data, at) == data.len());
    assert(chunks_from(data, data.len() as int) =~= Seq::<Seq<u8>>::empty());
    assert(chunks_from(data, at) =~= seq![payload]);
    assert(wal_is_whole(data, data.len() as int));
    lemma_wal_extends(log, wal_frame(payload), 0);
    assert(chunks_from(log, 0) + seq![payload] =~= chunks_from(log, 0).push(payload));
}

/// A chunk that a crash cut short costs no chunk before it.
pub proof fn law_torn_chunk_is_dropped(log: Seq<u8>, payload: Seq<u8>, written: int)
    requires
        wal_is_whole(log, 0),
        24 <= payload.len() <= 16 * 1024 * 1024,
        0 <= written < wal_frame(payload).len(),
    ensures
        chunks_from(log + wal_frame(payload).subrange(0, written), 0) == chunks_from(log, 0),
{
    let torn = wal_frame(payload).subrange(0, written);
    let data = log + torn;
    let at = log.len() as int;
    let n = (payload.len() % 0x1_0000_0000) as u32;
    assert(n == payload.len());
    bytes::lemma_le4_round_trip(n, Seq::empty());
    if written >= 4 {
        assert(data.subrange(at, at + 4) =~= bytes::le4(n) + Seq::<u8>::empty());
        assert(wal_end(data, at) > data.len());
    }
    assert(chunks_from(data, at) =~= Seq::<Seq<u8>>::empty());
    lemma_wal_extends(log, torn, 0);
    assert(chunks_from(log, 0) + Seq::<Seq<u8>>::empty() =~= chunks_from(log, 0));
}

/// A chunk that no sealing can have made costs no other: one too short for a nonce or
/// longer than sixteen megabytes is stepped over, and what is logged behind it is
/// recovered.
pub proof fn law_implausible_chunks_are_stepped_over(
    log: Seq<u8>,
    payload: Seq<u8>,
    next: Seq<u8>,
)
    requires
        wal_is_whole(log, 0),
        payload.len() < 24 || 16 * 1024 * 1024 < payload.len() <= u32::MAX,
        24 <= next.len() <= 16 * 1024 * 1024,
    ensures
        chunks_from(log + wal_frame(payload), 0) == chunks_from(log, 0),
        chunks_from(log + wal_frame(payload) + wal_frame(next), 0) == chunks_from(log, 0).push(
            next,
        ),
{
    let data = log + wal_frame(payload);
    let at = log.len() as int;
    let n = (payload.len() % 0x1_0000_0000) as u32;
    assert(n == payload.len());
    bytes::lemma_le4_round_trip(n, Seq::empty());
    assert(data.subrange(at, at + 4) =~= bytes::le4(n) + Seq::<u8>::empty());
    assert(wal_end(data, at) == data.len());
    assert(chunks_from(data, data.len() as int) =~= Seq::<Seq<u8>>::empty());
    assert(chunks_from(data, at) =~= Seq::<Seq<u8>>::empty());
    assert(wal_is_whole(data, data.len() as int));
    lemma_wal_extends(log, wal_frame(payload), 0);
    assert(chunks_from(log, 0) + Seq::<Seq<u8>>::empty() =~= chunks_from(log, 0));
    law_logged_chunk_is_recovered(data, next);
}

/// `frame` is what is appended for a sealed chunk.
pub open spec fn is_recorded(
    wal_size: u64,
    payload: Seq<u8>,
    frame: Result<Vec<u8>, ShardError>,
) -> bool {
    match frame {
        Ok(f) => wal_size < MAX_WAL_AGGREGATE_BYTES && f@ == wal_frame(payload),
        Err(e) => wal_size >= MAX_WAL_AGGREGATE_BYTES && e.is_io(
            "WAL aggregate size limit exceeded"@,
        ),
    }
}

/// A log takes every chunk until it has half a gigabyte, and what it takes for a
/// chunk of a sound length is recovered as that chunk.
pub proof fn law_chunks_are_logged_while_there_is_room(
    log: Seq<u8>,
    payload: Seq<u8>,
    frame: Result<Vec<u8>, ShardError>,
)
    requires
        wal_is_whole(log, 0),
        log.len() <= u64::MAX,
        24 <= payload.len() <= 16 * 1024 * 1024,
        is_recorded(log.len() as u64, payload, frame),
    ensures
        frame is Ok <==> log.len() < 512 * 1024 * 1024,
        frame matches Ok(f) ==> chunks_from(log + f@, 0) == chunks_from(log, 0).push(payload),
{
    law_logged_chunk_is_recovered(log, payload);
}

/// The bytes to append for a sealed chunk, unless the log is full.
pub fn record_chunk(wal_size: u64, nonce: &[u8], ciphertext: &[u8]) -> (frame: Result<
    Vec<u8>,
    ShardError,
>)
    requires
        nonce@.len() + ciphertext@.len() <= usize::MAX,
    ensures
        is_recorded(wal_size, nonce@ + ciphertext@, frame),
{
    if wal_size >= MAX_WAL_AGGREGATE_BYTES {
        return Err(ShardError::Io("WAL aggregate size limit exceeded".to_owned()));
    }
    let frame_len: u32 = ((nonce.len() + ciphertext.len()) as u64 % 0x1_0000_0000) as u32;
    let mut frame = bytes::put_le4(frame_len);
    bytes::extend(&mut frame, nonce);
    bytes::extend(&mut frame, ciphertext);
    assert(frame@ =~= wal_frame(nonce@ + ciphertext@));
    Ok(frame)
}

/// The sealed chunks of a log, in the order in which they were written.
pub fn read_chunks(data: &[u8]) -> (chunks: Vec<Vec<u8>>)
    ensures
        chunks@.map_values(|c: Vec<u8>| c@) == chunks_from(data@, 0),
{
    let mut chunks: Vec<Vec<u8>> = Vec::new();
    let mut at: usize = 0;
    let end: usize = data.len();
    assert(chunks@.map_values(|c: Vec<u8>| c@) + chunks_from(data@, 0) =~= chunks_from(data@, 0));
    loop
        invariant
            end == data@.len(),
            at <= end,
            chunks@.map_values(|c: Vec<u8>| c@) + chunks_from(data@, at as int) == chunks_from(
                data@,
                0,
            ),
        ensures
            chunks@.map_values(|c: Vec<u8>| c@) == chunks_from(data@, 0),
        decreases end - at,
    {
        let ghost seen = chunks@.map_values(|c: Vec<u8>| c@);
        assert(seen + Seq::<Seq<u8>>::empty() =~= seen);
        if end - at < 4 {
            break;
        }
        let length: u32 = bytes::get_le4(data, at);
        if end - at - 4 < length as usize {
            break;
        }
        let from: usize = at + 4;
        let to: usize = from + length as usize;
        if length as usize >= AEAD_NONCE_LEN && length <= MAX_WAL_CHUNK_BYTES {
            let chunk = bytes::slice(data, from, to);
            proof {
                assert(chunks@.push(chunk).map_values(|c: Vec<u8>| c@) =~= seen.push(chunk@));
                assert(seen.push(chunk@) + chunks_from(data@, to as int) =~= seen + chunks_from(
                    data@,
                    at as int,
                ));
            }
            chunks.push(chunk);
        }
        at = to;
    }
    chunks
}

/// The log of a list of sealed chunks, written one after the other.
pub open spec fn log_of(payloads: Seq<Seq<u8>>) -> Seq<u8>
    decreases payloads.len(),
{
    if payloads.len() == 0 {
        Seq::empty()
    } else {
        log_of(payloads.drop_last()) + wal_frame(payloads.last())
    }
}

/// All of the chunks have lengths that a recovery takes.
pub open spec fn all_plausible(payloads: Seq<Seq<u8>>) -> bool {
    forall|i: int| 0 <= i < payloads.len() ==> plausible_length((#[trigger] payloads[i]).len())
}

/// The chunks of a log are recovered, all of them and in their order, whenever each has
/// at least a nonce and at most sixteen megabytes.
pub proof fn law_a_log_is_recovered_whole(payloads: Seq<Seq<u8>>)
    requires
        forall|i: int|
            0 <= i < payloads.len() ==> 24 <= (#[trigger] payloads[i]).len() <= 16 * 1024 * 1024,
    ensures
        all_plausible(payloads),
        chunks_from(log_of(payloads), 0) == payloads,
{
    assert(all_plausible(payloads));
    lemma_log_is_read(payloads);
}

proof fn lemma_log_is_read(payloads: Seq<Seq<u8>>)
    requires
        all_plausible(payloads),
    ensures
        wal_is_whole(log_of(payloads), 0),
        chunks_from(log_of(payloads), 0) == payloads,
    decreases payloads.len(),
{
    if payloads.len() > 0 {
        let last = payloads.len() - 1;
        assert(plausible_length(payloads[last].len()));
        assert forall|i: int| 0 <= i < last implies plausible_length(
            (#[trigger] payloads.drop_last()[i]).len(),
        ) by {
            assert(plausible_length(payloads[i].len()));
        }
        lemma_log_is_read(payloads.drop_last());
        law_logged_chunk_is_recovered(log_of(payloads.drop_last()), payloads.last());
        assert(payloads =~= payloads.drop_last().push(payloads.last()));
    } else {
        assert(chunks_from(log_of(payloads), 0) =~= payloads);
    }
}

/// The chunks that a recovery gives, where `open` undoes the sealing of a chunk
/// and gives nothing for one that was altered: those that open, in the order in
/// which they were written.
pub open spec fn recovered<A>(data: Seq<u8>, open: spec_fn(Seq<u8>) -> Option<A>) -> Seq<A> {
    lists::kept(chunks_from(data, 0).map_values(open))
}

/// Damage stays where it is. Of a log whose chunks may have been altered, their
/// lengths intact, and whose last write may have been cut short, a recovery reads
/// every chunk before the cut. It gives those that still open, in the order in
/// which they were written, and one that does not open hides none behind it.
/// Without damage it gives all of them.
pub proof fn law_damage_hides_no_other_chunk<A>(
    chunks: Seq<Seq<u8>>,
    cut: Seq<u8>,
    written: int,
    open: spec_fn(Seq<u8>) -> Option<A>,
    i: int,
)
    requires
        all_plausible(chunks),
        plausible_length(cut.len()),
        0 <= written < wal_frame(cut).len(),
        0 <= i < chunks.len(),
    ensures
        chunks_from(log_of(chunks) + wal_frame(cut).subrange(0, written), 0) == chunks,
        recovered(log_of(chunks) + wal_frame(cut).subrange(0, written), open) == lists::kept(
            chunks.map_values(open),
        ),
        recovered(log_of(chunks), open) == lists::kept(chunks.map_values(open)),
        open(chunks[i]) matches Some(plain) ==> {
            let before = lists::kept(chunks.subrange(0, i).map_values(open)).len() as int;
            &&& before < recovered(log_of(chunks), open).len()
            &&& recovered(log_of(chunks), open)[before] == plain
        },
        (forall|k: int| 0 <= k < chunks.len() ==> open(#[trigger] chunks[k]) is Some) ==> recovered(
            log_of(chunks),
            open,
        ) == chunks.map_values(|c: Seq<u8>| open(c)->0),
{
    let log = log_of(chunks);
    let opened = chunks.map_values(open);
    lemma_log_is_read(chunks);
    law_torn_chunk_is_dropped(log, cut, written);
    lists::lemma_kept(opened, i);
    assert(opened.subrange(0, i) =~= chunks.subrange(0, i).map_values(open));
    if forall|k: int| 0 <= k < chunks.len() ==> open(#[trigger] chunks[k]) is Some {
        assert forall|k: int| 0 <= k < opened.len() implies (#[trigger] opened[k]) is Some by {
            assert(open(chunks[k]) is Some);
        }
        lists::lemma_all_kept(opened);
        assert(opened.map_values(|x: Option<A>| x->0) =~= chunks.map_values(
            |c: Seq<u8>| open(c)->0,
        ));
    }
}

/// A sealed file: the nonce, then the ciphertext.
pub fn seal(nonce: &[u8], ciphertext: &[u8]) -> (sealed: Vec<u8>)
    ensures
        sealed@ == nonce@ + ciphertext@,
{
    let mut sealed: Vec<u8> = Vec::new();
    bytes::extend(&mut sealed, nonce);
    bytes::extend(&mut sealed, ciphertext);
    assert(sealed@ =~= nonce@ + ciphertext@);
    sealed
}

/// `parts` are the nonce and the ciphertext of a sealed file.
pub open spec fn are_sealed(sealed: Seq<u8>, parts: Option<(Vec<u8>, Vec<u8>)>) -> bool {
    match parts {
        Some((nonce, ciphertext)) => nonce@.len() == AEAD_NONCE_LEN && sealed == nonce@
            + ciphertext@,
        None => sealed.len() < AEAD_NONCE_LEN,
    }
}

/// What was sealed with a nonce of twenty-four bytes is parted into that nonce and that
/// ciphertext again.
pub proof fn law_sealed_files_come_apart(
    nonce: Seq<u8>,
    ciphertext: Seq<u8>,
    parts: Option<(Vec<u8>, Vec<u8>)>,
)
    requires
        nonce.len() == 24,
        are_sealed(nonce + ciphertext, parts),
    ensures
        parts matches Some((n, c)) && n@ == nonce && c@ == ciphertext,
{
    match parts {
        Some((n, c)) => {
            assert((n@ + c@).take(24) =~= n@);
            assert((nonce + ciphertext).take(24) =~= nonce);
            assert((n@ + c@).skip(24) =~= c@);
            assert((nonce + ciphertext).skip(24) =~= ciphertext);
        },
        None => {},
    }
}

/// Parts a sealed file into nonce and ciphertext, unless it is too short.
pub fn unseal(sealed: &[u8]) -> (parts: Option<(Vec<u8>, Vec<u8>)>)
    ensures
        are_sealed(sealed@, parts),
{
    let end: usize = sealed.len();
    if end < AEAD_NONCE_LEN {
        return None;
    }
    let nonce = bytes::slice(sealed, 0, AEAD_NONCE_LEN);
    let ciphertext = bytes::slice(sealed, AEAD_NONCE_LEN, end);
    assert(sealed@ =~= nonce@ + ciphertext@);
    Some((nonce, ciphertext))
}

/// `parts` is what a salvage file gives.
pub open spec fn is_salvage(
    sealed: Seq<u8>,
    parts: Result<(Vec<u8>, Vec<u8>), ShardError>,
) -> bool {
    match parts {
        Ok((nonce, ciphertext)) => nonce@.len() == AEAD_NONCE_LEN && sealed == nonce@ + ciphertext@
            && sealed.len() <= MAX_EGRESS_SALVAGE_BYTES,
        Err(e) => if sealed.len() > MAX_EGRESS_SALVAGE_BYTES {
            e.is_serialization("Egress salvage file exceeds 64 MiB limit"@)
        } else {
            sealed.len() < AEAD_NONCE_LEN && e.is_serialization(
                "Egress salvage file too small for AEAD frame"@,
            )
        },
    }
}

/// Every salvage file between a nonce and sixty-four megabytes is read, and no other.
pub proof fn law_salvage_is_read_within_its_limits(
    sealed: Seq<u8>,
    parts: Result<(Vec<u8>, Vec<u8>), ShardError>,
)
    requires
        is_salvage(sealed, parts),
    ensures
        parts is Ok <==> 24 <= sealed.len() <= 64 * 1024 * 1024,
        parts matches Ok((nonce, ciphertext)) ==> nonce@ == sealed.take(24) && ciphertext@
            == sealed.skip(24),
{
    match parts {
        Ok((nonce, ciphertext)) => {
            assert(nonce@ =~= sealed.take(24));
            assert(ciphertext@ =~= sealed.skip(24));
        },
        Err(_) => {},
    }
}

/// Parts a salvage file, within its limits of size.
pub fn read_egress_salvage(sealed: &[u8]) -> (parts: Result<(Vec<u8>, Vec<u8>), ShardError>)
    ensures
        is_salvage(sealed@, parts),
{
    if sealed.len() as u64 > MAX_EGRESS_SALVAGE_BYTES {
        return Err(
            ShardError::SerializationError("Egress salvage file exceeds 64 MiB limit".to_owned()),
        );
    }
    match unseal(sealed) {
        Some(parts) => Ok(parts),
        None => Err(
            ShardError::SerializationError(
                "Egress salvage file too small for AEAD frame".to_owned(),
            ),
        ),
    }
}

/// The bytes of a workbench state: its length, most significant byte first,
/// then the sealed state.
pub open spec fn workbench_frame(payload: Seq<u8>) -> Seq<u8> {
    bytes::be8(payload.len() as u64) + payload
}

pub fn record_workbench_state(nonce: &[u8], ciphertext: &[u8]) -> (frame: Vec<u8>)
    requires
        nonce@.len() + ciphertext@.len() <= usize::MAX,
    ensures
        frame@ == workbench_frame(nonce@ + ciphertext@),
{
    let mut frame = bytes::put_be8((nonce.len() + ciphertext.len()) as u64);
    bytes::extend(&mut frame, nonce);
    bytes::extend(&mut frame, ciphertext);
    assert(frame@ =~= workbench_frame(nonce@ + ciphertext@));
    frame
}

/// What reading a workbench state gives: the sealed state that the length field
/// announces, or the reason why there is none.
pub open spec fn workbench_payload(data: Seq<u8>) -> Result<Seq<u8>, WorkbenchFault> {
    if data.len() < 8 {
        Err(WorkbenchFault::NoLength)
    } else if bytes::be8_value(data) > MAX_WORKBENCH_STATE_BYTES {
        Err(WorkbenchFault::TooLarge)
    } else if bytes::be8_value(data) < AEAD_NONCE_LEN {
        Err(WorkbenchFault::TooSmall)
    } else if 8 + bytes::be8_value(data) > data.len() {
        Err(WorkbenchFault::NoPayload)
    } else {
        Ok(data.subrange(8, 8 + bytes::be8_value(data) as int))
    }
}

/// Why a workbench state could not be read.
#[derive(Debug, Clone, Copy, PartialEq, Eq, Structural)]
pub enum WorkbenchFault {
    /// The file ends inside the length field.
    NoLength,
    TooLarge,
    TooSmall,
    /// The file ends inside the sealed state.
    NoPayload,
}

impl WorkbenchFault {
    /// The fault in words.
    pub fn message(&self) -> (m: String)
        ensures
            m@ == match *self {
                WorkbenchFault::NoLength => "Failed to read state length"@,
                WorkbenchFault::TooLarge => "Workbench state exceeds 256 MiB limit"@,
                WorkbenchFault::TooSmall => "Workbench state too small for AEAD frame"@,
                WorkbenchFault::NoPayload => "Failed to read state payload"@,
            },
    {
        match self {
            WorkbenchFault::NoLength => "Failed to read state length".to_owned(),
            WorkbenchFault::TooLarge => "Workbench state exceeds 256 MiB limit".to_owned(),
            WorkbenchFault::TooSmall => "Workbench state too small for AEAD frame".to_owned(),
            WorkbenchFault::NoPayload => "Failed to read state payload".to_owned(),
        }
    }
}

/// Reads a workbench state: its nonce and its ciphertext.
pub fn read_workbench_state(data: &[u8]) -> (parts: Result<(Vec<u8>, Vec<u8>), WorkbenchFault>)
    ensures
        match parts {
            Ok((nonce, ciphertext)) => nonce@.len() == AEAD_NONCE_LEN && workbench_payload(data@)
                == Ok::<Seq<u8>, WorkbenchFault>(nonce@ + ciphertext@),
            Err(f) => workbench_payload(data@) == Err::<Seq<u8>, WorkbenchFault>(f),
        },
{
    let end: usize = data.len();
    if end < 8 {
        return Err(WorkbenchFault::NoLength);
    }
    let length: u64 = bytes::get_be8(data, 0);
    assert(data@.subrange(0, 8).subrange(0, 8) =~= data@.subrange(0, 8));
    assert(length == bytes::be8_value(data@));
    if length > MAX_WORKBENCH_STATE_BYTES {
        return Err(WorkbenchFault::TooLarge);
    }
    if length < AEAD_NONCE_LEN as u64 {
        return Err(WorkbenchFault::TooSmall);
    }
    if ((end - 8) as u64) < length {
        return Err(WorkbenchFault::NoPayload);
    }
    let nonce = bytes::slice(data, 8, 8 + AEAD_NONCE_LEN);
    let ciphertext = bytes::slice(data, 8 + AEAD_NONCE_LEN, 8 + length as usize);
    assert(nonce@ + ciphertext@ =~= data@.subrange(8, 8 + length));
    Ok((nonce, ciphertext))
}

/// A workbench state that was recorded is read back, whatever follows it.
pub proof fn law_workbench_state_is_readable(payload: Seq<u8>, rest: Seq<u8>)
    requires
        24 <= payload.len() <= 256 * 1024 * 1024,
    ensures
        workbench_payload(workbench_frame(payload) + rest) == Ok::<Seq<u8>, WorkbenchFault>(
            payload,
        ),
{
    let data = workbench_frame(payload) + rest;
    bytes::lemma_be8_round_trip(payload.len() as u64, payload + rest);
    assert(data =~= bytes::be8(payload.len() as u64) + (payload + rest));
    assert(data.subrange(8, 8 + payload.len() as int) =~= payload);
}

/// A recording and the token that revokes it.
pub type Revoked = (Seq<char>, Seq<u8>);

/// Byte strings one after the other.
pub open spec fn joined(parts: Seq<Seq<u8>>) -> Seq<u8>
    decreases parts.len(),
{
    if parts.len() == 0 {
        Seq::empty()
    } else {
        parts.first() + joined(parts.drop_first())
    }
}

/// Revocations, each a recording and its token, as they are kept: how many there
/// are, then the tokens as they are.
pub open spec fn revocation_list(rows: Seq<Revoked>) -> Seq<u8> {
    wire::varint(rows.len()) + joined(tokens_of(rows))
}

/// The recordings and tokens of a list.
pub open spec fn revocations(v: Seq<(String, Vec<u8>)>) -> Seq<Revoked> {
    v.map_values(|r: (String, Vec<u8>)| (r.0@, r.1@))
}

/// The tokens alone.
pub open spec fn tokens_of(rows: Seq<Revoked>) -> Seq<Seq<u8>> {
    rows.map_values(|r: Revoked| r.1)
}

/// A list of revocations that is being read, token by token. Where a token ends,
/// and which recording it revokes, only the token itself can tell.
#[derive(Debug)]
pub struct RevocationScan {
    /// What is behind the tokens that were read.
    pub body: Vec<u8>,
    /// How many tokens are still to come.
    pub left: usize,
    /// What was read.
    pub found: Vec<(String, Vec<u8>)>,
}

impl RevocationScan {
    /// The scan stands before these revocations, whatever follows them.
    pub open spec fn stands_before(&self, rows: Seq<Revoked>, rest: Seq<u8>) -> bool {
        &&& self.left == rows.len()
        &&& self.body@ == joined(tokens_of(rows)) + rest
    }

    /// Begins to read a list; `None` stands for a file that is not there, which
    /// holds nothing. A list that was written is read from its first token on.
    pub fn begin(plaintext: Option<&[u8]>) -> (scan: Result<Self, ShardError>)
        ensures
            match plaintext {
                None => scan matches Ok(s) && s.left == 0 && s.body@.len() == 0
                    && s.found@.len() == 0,
                Some(data) => {
                    &&& match wire::postcard_count(usize::BITS as nat, data@) {
                        Ok((count, body)) => scan matches Ok(s) && s.left == count && s.body@
                            == body && s.found@.len() == 0,
                        Err(words) => scan matches Err(e) && e.is_serialization(words),
                    }
                    &&& forall|rows: Seq<Revoked>|
                        data@ == #[trigger] revocation_list(rows) && rows.len() <= usize::MAX
                            ==> scan is Ok && scan->Ok_0.stands_before(rows, Seq::empty())
                },
            },
    {
        match plaintext {
            None => Ok(RevocationScan { body: Vec::new(), left: 0, found: Vec::new() }),
            Some(data) => match wire::take_count(data) {
                Ok((count, body)) => {
                    let scan = RevocationScan { body, left: count, found: Vec::new() };
                    assert forall|rows: Seq<Revoked>|
                        data@ == #[trigger] revocation_list(rows) && rows.len()
                            <= usize::MAX implies scan.stands_before(rows, Seq::empty()) by {
                        let all = joined(tokens_of(rows));
                        assert(data@ == wire::varint((rows.len() as usize) as nat) + all);
                        assert(all + Seq::<u8>::empty() =~= all);
                    }
                    Ok(scan)
                },
                Err(words) => {
                    assert forall|rows: Seq<Revoked>|
                        data@ == #[trigger] revocation_list(rows) && rows.len()
                            <= usize::MAX implies false by {
                        assert(data@ == wire::varint((rows.len() as usize) as nat) + joined(
                            tokens_of(rows),
                        ));
                    }
                    Err(ShardError::SerializationError(words))
                },
            },
        }
    }

    /// What the next token does to a scan: where it can be read, it is found, and
    /// the scan stands behind it.
    pub open spec fn took(
        before: Self,
        after: Result<Self, ShardError>,
        token: Result<(String, usize), String>,
    ) -> bool {
        match token {
            Err(words) => after matches Err(e) && e.is_serialization(words@),
            Ok((recording_id, size)) => after matches Ok(s) && {
                &&& s.left == before.left - 1
                &&& s.body@ == before.body@.subrange(size as int, before.body@.len() as int)
                &&& revocations(s.found@) == revocations(before.found@).push(
                    (recording_id@, before.body@.subrange(0, size as int)),
                )
            },
        }
    }

    /// Goes on with the token at the front: the recording that it names and the
    /// bytes that it takes, or why it cannot be read.
    pub fn next(self, token: Result<(String, usize), String>) -> (scan: Result<Self, ShardError>)
        requires
            self.left > 0,
            token matches Ok(t) ==> t.1 <= self.body@.len(),
        ensures
            Self::took(self, scan, token),
    {
        match token {
            Err(words) => Err(ShardError::SerializationError(words)),
            Ok((recording_id, size)) => {
                let mut found = self.found;
                let ghost before = found@;
                let taken = bytes::slice(self.body.as_slice(), 0, size);
                let body = bytes::slice(self.body.as_slice(), size, self.body.len());
                found.push((recording_id, taken));
                assert(revocations(found@) =~= revocations(before).push((recording_id@, taken@)));
                Ok(RevocationScan { body, left: self.left - 1, found })
            },
        }
    }
}

/// Revocations that were written are read back: a scan that stands before them and
/// is told where the first token ends has found the first, and stands before the
/// others.
pub proof fn law_revocations_are_read_back(
    before: RevocationScan,
    after: Result<RevocationScan, ShardError>,
    token: Result<(String, usize), String>,
    rows: Seq<Revoked>,
    rest: Seq<u8>,
)
    requires
        before.stands_before(rows, rest),
        rows.len() > 0,
        RevocationScan::took(before, after, token),
        token matches Ok(t) && t.0@ == rows[0].0 && t.1 == rows[0].1.len(),
    ensures
        after is Ok,
        after->Ok_0.stands_before(rows.drop_first(), rest),
        revocations(after->Ok_0.found@) == revocations(before.found@).push(rows[0]),
{
    let tokens = tokens_of(rows);
    let size = rows[0].1.len() as int;
    assert(tokens.first() == rows[0].1);
    assert(tokens_of(rows.drop_first()) =~= tokens.drop_first());
    let others = joined(tokens.drop_first()) + rest;
    assert(before.body@ =~= rows[0].1 + others);
    assert(before.body@.subrange(0, size) =~= rows[0].1);
    assert(before.body@.subrange(size, before.body@.len() as int) =~= others);
}

/// `data` is what is written when revocations are added to those stored.
pub open spec fn are_recorded(
    stored: Result<Vec<(String, Vec<u8>)>, ShardError>,
    added: Seq<(String, Vec<u8>)>,
    data: Seq<u8>,
) -> bool {
    data == revocation_list(
        match stored {
            Ok(v) => revocations(v@) + revocations(added),
            Err(_) => revocations(added),
        },
    )
}

/// No revocation is ever lost to a new one: what is written is the list of all that
/// were stored, followed by all that were added, and it is read as such a list.
pub proof fn law_revocations_add_up(
    stored: Vec<(String, Vec<u8>)>,
    added: Seq<(String, Vec<u8>)>,
    data: Seq<u8>,
    i: int,
) -> (rows: Seq<Revoked>)
    requires
        are_recorded(Ok(stored), added, data),
        0 <= i < stored@.len() + added.len(),
    ensures
        data == revocation_list(rows),
        rows.len() == stored@.len() + added.len(),
        i < stored@.len() ==> rows[i] == (stored@[i].0@, stored@[i].1@),
        i >= stored@.len() ==> rows[i] == (
            added[i - stored@.len()].0@,
            added[i - stored@.len()].1@,
        ),
{
    revocations(stored@) + revocations(added)
}

/// What is written when revocations are added: those already stored, then the new
/// ones. Where those stored cannot be read, the new ones alone.
pub fn record_revocations(
    stored: Result<Vec<(String, Vec<u8>)>, ShardError>,
    added: &Vec<(String, Vec<u8>)>,
) -> (data: Vec<u8>)
    requires
        stored matches Ok(v) ==> v@.len() + added@.len() <= usize::MAX,
    ensures
        are_recorded(stored, added@, data@),
{
    let old: Vec<(String, Vec<u8>)> = match stored {
        Ok(v) => v,
        Err(_) => Vec::new(),
    };
    let ghost rows = revocations(old@) + revocations(added@);
    assert(old@.len() == 0 ==> rows =~= revocations(added@));
    let mut data = wire::encode_count(old.len() + added.len());
    append_tokens(&mut data, &old);
    append_tokens(&mut data, added);
    proof {
        assert(tokens_of(rows) =~= tokens_of(revocations(old@)) + tokens_of(revocations(added@)));
        lemma_joined_add(tokens_of(revocations(old@)), tokens_of(revocations(added@)));
        assert(data@ =~= revocation_list(rows));
    }
    data
}

proof fn lemma_joined_add(a: Seq<Seq<u8>>, b: Seq<Seq<u8>>)
    ensures
        joined(a + b) == joined(a) + joined(b),
    decreases a.len(),
{
    if a.len() == 0 {
        assert(a + b =~= b);
        assert(joined(a) + joined(b) =~= joined(b));
    } else {
        assert((a + b).drop_first() =~= a.drop_first() + b);
        lemma_joined_add(a.drop_first(), b);
        assert(joined(a + b) =~= joined(a) + joined(b));
    }
}

fn append_tokens(data: &mut Vec<u8>, list: &Vec<(String, Vec<u8>)>)
    ensures
        final(data)@ == old(data)@ + joined(tokens_of(revocations(list@))),
{
    let ghost tokens = tokens_of(revocations(list@));
    let ghost start = data@;
    let mut i: usize = 0;
    assert(start + joined(tokens.subrange(0, 0)) =~= start);
    while i < list.len()
        invariant
            i <= list@.len(),
            tokens == tokens_of(revocations(list@)),
            data@ == start + joined(tokens.subrange(0, i as int)),
        decreases list@.len() - i,
    {
        proof {
            let one = seq![tokens[i as int]];
            assert(tokens.subrange(0, i + 1) =~= tokens.subrange(0, i as int) + one);
            lemma_joined_add(tokens.subrange(0, i as int), one);
            assert(one.drop_first() =~= Seq::<Seq<u8>>::empty());
            reveal_with_fuel(joined, 2);
            assert(joined(one) =~= tokens[i as int]);
        }
        bytes::extend(data, list[i].1.as_slice());
        assert(data@ =~= start + joined(tokens.subrange(0, i + 1)));
        i += 1;
    }
    assert(tokens.subrange(0, i as int) =~= tokens);
}

} // verus!
