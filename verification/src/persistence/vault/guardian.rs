//! The guardian: what the vault holds, whose key opens it, what may be told
//! about it, and what is gone for good.
use vstd::prelude::*;
use vstd::string::*;
use crate::crypto;
use crate::evidence::{Envelope, GuardianError, ShardError};
use crate::persistence::vault::ledger::StorageLedger;
use crate::persistence::vault::metadata::{RecordingMetadata, RecordingMetadataStore};
use crate::persistence::vault::recording_log::{rebuild_index, ShardIndex};
use crate::paths;
use crate::text;
use crate::text_map;
use crate::text_map::TextMap;
use crate::wire;

verus! {

/// The average size of an envelope on the workbench, for estimates.
pub const AVG_ENVELOPE_BYTES: u64 = 4096;

/// The longest clock tolerance that a promotion grants, in milliseconds.
pub const MAX_TOLERANCE_MS: u64 = 30000;

/// The log of one recording: where its file is, whose it is, and where in the
/// file each shard starts.
pub struct RecordingLog {
    pub index: ShardIndex,
    pub owner_did: String,
    pub path: String,
}

/// The state of the vault.
pub struct Guardian {
    pub vault_path: String,
    pub local_did: String,
    pub ledger: StorageLedger,
    /// Append-only recording logs, one per recording.
    pub recording_logs: TextMap<RecordingLog>,
    /// Revoked recordings: future shards for these are refused.
    pub revoked_recordings: TextMap<()>,
    /// Content keys of foreign recordings. The keys of own recordings are
    /// derived whenever they are needed and never stored here.
    pub content_keyring: TextMap<[u8; 32]>,
    pub recording_metadata: RecordingMetadataStore,
    /// The verified shards of recordings that are still being put together.
    pub contexts: TextMap<Vec<Envelope>>,
}

/// What an append has to do before it can write.
#[derive(Debug)]
pub enum AppendPlan {
    /// The log is open.
    LogExists,
    /// The file at `path` in the directory `dir` is to be opened, then
    /// registered with `register_log`.
    OpenLog { dir: String, path: String },
}

/// What remains to be done on disk once a revocation has been carried out in memory.
#[derive(Debug)]
pub struct RevocationCleanup {
    /// The log file to overwrite with zeros and delete.
    pub log_path: Option<String>,
    /// The policy map lost an entry and is to be stored again.
    pub persist_metadata: bool,
}

/// How the promotion of an envelope is to be checked.
#[derive(Debug)]
pub struct PromotionPlan {
    /// The link of the preceding shard, where that shard is at hand.
    pub anchor: Option<Vec<u8>>,
    pub tolerance_ms: u64,
}

/// The shard of `sequence_id` among `shards`, if any.
pub open spec fn shard_with(shards: Seq<Envelope>, sequence_id: u32) -> Option<Envelope>
    decreases shards.len(),
{
    if shards.len() == 0 {
        None
    } else if shards.last().sequence_id == sequence_id {
        Some(shards.last())
    } else {
        shard_with(shards.drop_last(), sequence_id)
    }
}

/// The shards of all other sequences, in their order.
pub open spec fn without_sequence(shards: Seq<Envelope>, sequence_id: u32) -> Seq<Envelope>
    decreases shards.len(),
{
    if shards.len() == 0 {
        Seq::empty()
    } else {
        let front = without_sequence(shards.drop_last(), sequence_id);
        if shards.last().sequence_id == sequence_id {
            front
        } else {
            front.push(shards.last())
        }
    }
}

/// The shard of a sequence is found wherever one is, the last where there are
/// several, and none is made up.
pub proof fn law_a_present_shard_is_found(shards: Seq<Envelope>, sequence_id: u32, i: int)
    requires
        0 <= i < shards.len(),
    ensures
        shards[i].sequence_id == sequence_id ==> shard_with(shards, sequence_id) is Some,
        shards[i].sequence_id == sequence_id && (forall|j: int|
            i < j < shards.len() ==> (#[trigger] shards[j]).sequence_id != sequence_id)
            ==> shard_with(shards, sequence_id) == Some(shards[i]),
        shard_with(shards, sequence_id) matches Some(e) ==> e.sequence_id == sequence_id
            && shards.contains(e),
    decreases shards.len(),
{
    let front = shards.drop_last();
    if shards.last().sequence_id == sequence_id {
        assert(shards[shards.len() - 1] == shards.last());
    } else {
        if front.len() > 0 {
            let k = if i < front.len() {
                i
            } else {
                0
            };
            law_a_present_shard_is_found(front, sequence_id, k);
            if shard_with(front, sequence_id) is Some {
                let e = shard_with(front, sequence_id)->0;
                let at = front.index_of(e);
                assert(shards[at] == e);
            }
            if i < front.len() && (forall|j: int|
                i < j < shards.len() ==> (#[trigger] shards[j]).sequence_id != sequence_id) {
                assert forall|j: int| i < j < front.len() implies (
                #[trigger] front[j]).sequence_id != sequence_id by {
                    assert(shards[j].sequence_id != sequence_id);
                }
            }
        }
    }
}

/// All shards of other sequences stay, and in their order.
pub proof fn law_only_its_sequence_is_dropped(shards: Seq<Envelope>, sequence_id: u32)
    ensures
        without_sequence(shards, sequence_id) == shards.filter(
            |e: Envelope| e.sequence_id != sequence_id,
        ),
    decreases shards.len(),
{
    let other = |e: Envelope| e.sequence_id != sequence_id;
    reveal(Seq::filter);
    if shards.len() > 0 {
        law_only_its_sequence_is_dropped(shards.drop_last(), sequence_id);
    }
}

fn drop_sequence(shards: Vec<Envelope>, sequence_id: u32) -> (others: Vec<Envelope>)
    ensures
        others@ == without_sequence(shards@, sequence_id),
{
    let ghost all = shards@;
    let mut rest = shards;
    let mut others: Vec<Envelope> = Vec::new();
    let mut done: usize = 0;
    let total: usize = rest.len();
    assert(all.subrange(0, 0) =~= Seq::<Envelope>::empty());
    while rest.len() > 0
        invariant
            done + rest@.len() == all.len(),
            all.len() == total,
            rest@ == all.subrange(done as int, all.len() as int),
            others@ == without_sequence(all.subrange(0, done as int), sequence_id),
        decreases rest@.len(),
    {
        let shard = rest.remove(0);
        proof {
            let longer = all.subrange(0, done + 1);
            assert(longer.drop_last() =~= all.subrange(0, done as int));
            assert(longer.last() == shard);
            assert(rest@ =~= all.subrange(done + 1, all.len() as int));
        }
        if shard.sequence_id != sequence_id {
            others.push(shard);
        }
        done += 1;
    }
    assert(all.subrange(0, done as int) =~= all);
    others
}

/// The number of shards of all lists together.
pub open spec fn total_len(lists: Seq<Vec<Envelope>>) -> nat
    decreases lists.len(),
{
    if lists.len() == 0 {
        0
    } else {
        total_len(lists.drop_last()) + lists.last()@.len()
    }
}

proof fn lemma_total_len_monotone(lists: Seq<Vec<Envelope>>, k: int)
    requires
        0 <= k <= lists.len(),
    ensures
        total_len(lists.subrange(0, k)) <= total_len(lists),
    decreases lists.len() - k,
{
    if k < lists.len() {
        lemma_total_len_monotone(lists, k + 1);
        assert(lists.subrange(0, k + 1).drop_last() =~= lists.subrange(0, k));
    } else {
        assert(lists.subrange(0, k) =~= lists);
    }
}

/// Every shard on the workbench is counted, each as four kilobytes.
pub proof fn law_every_shard_has_its_weight(lists: Seq<Vec<Envelope>>)
    ensures
        total_len(lists) == lists.map_values(|v: Vec<Envelope>| v@.len()).fold_left(
            0nat,
            |a: nat, b: nat| a + b,
        ),
        AVG_ENVELOPE_BYTES == 4 * 1024,
    decreases lists.len(),
{
    let lens = lists.map_values(|v: Vec<Envelope>| v@.len());
    reveal(Seq::fold_left);
    if lists.len() > 0 {
        let front = lists.drop_last();
        law_every_shard_has_its_weight(front);
        assert(lens.drop_last() =~= front.map_values(|v: Vec<Envelope>| v@.len()));
    }
}

/// The recording whose log has this file name.
pub open spec fn logged_recording(file_name: Seq<char>) -> Option<Seq<char>> {
    let n = file_name.len() - ".recording"@.len();
    if n > 0 && file_name.subrange(n as int, file_name.len() as int) == ".recording"@ {
        Some(file_name.subrange(0, n as int))
    } else {
        None
    }
}

/// The recording whose log has this file name; other files are no logs.
pub fn recording_of_file(file_name: &str) -> (id: Option<String>)
    ensures
        match id {
            Some(s) => logged_recording(file_name@) == Some(s@),
            None => logged_recording(file_name@) is None,
        },
{
    let suffix = ".recording";
    let total: usize = file_name.unicode_len();
    let tail: usize = suffix.unicode_len();
    if total <= tail {
        return None;
    }
    let n: usize = total - tail;
    let end = file_name.substring_char(n, total).to_owned();
    if end == suffix.to_owned() {
        Some(file_name.substring_char(0, n).to_owned())
    } else {
        None
    }
}

/// `data` is what is written of a keyring.
pub open spec fn is_written_keyring(keyring: Map<Seq<char>, [u8; 32]>, data: Seq<u8>) -> bool {
    exists|rows: Seq<(Seq<char>, [u8; 32])>|
        text_map::are_entries(rows, keyring) && data == #[trigger] wire::key_rows_bytes(rows)
}

/// A file found in the directory of an owner.
#[derive(Debug)]
pub struct LogFile {
    /// The name of the directory, which stands for the owner.
    pub owner_dir: String,
    pub name: String,
    pub path: String,
    pub contents: Vec<u8>,
}

/// The last of the files that is the log of a recording.
pub open spec fn last_log(files: Seq<LogFile>, recording_id: Seq<char>) -> Option<LogFile>
    decreases files.len(),
{
    if files.len() == 0 {
        None
    } else if logged_recording(files.last().name@) == Some(recording_id) {
        Some(files.last())
    } else {
        last_log(files.drop_last(), recording_id)
    }
}

/// `log` is what a file on disk holds.
pub open spec fn is_log_of(log: RecordingLog, file: LogFile) -> bool {
    &&& log.owner_did@ == file.owner_dir@
    &&& log.path@ == file.path@
    &&& log.index@ == crate::persistence::vault::recording_log::index_from(
        file.contents@,
        0,
        Map::empty(),
    )
}

/// `after` is `before` with the logs that the files hold.
pub open spec fn logs_found(
    before: Map<Seq<char>, RecordingLog>,
    after: Map<Seq<char>, RecordingLog>,
    files: Seq<LogFile>,
) -> bool {
    forall|id: Seq<char>|
        match last_log(files, id) {
            Some(file) => #[trigger] after.dom().contains(id) && is_log_of(after[id], file),
            None => after.dom().contains(id) == before.dom().contains(id) && (before.dom().contains(
                id,
            ) ==> after[id] == before[id]),
        }
}

/// A log that is found on disk is taken up, under the name that its file has before
/// the ending, unless a later file is the log of the same recording.
pub proof fn law_logs_on_disk_are_taken_up(
    before: Map<Seq<char>, RecordingLog>,
    after: Map<Seq<char>, RecordingLog>,
    files: Seq<LogFile>,
    id: Seq<char>,
    k: int,
)
    requires
        logs_found(before, after, files),
        id.len() > 0,
        0 <= k < files.len(),
        files[k].name@ == id + ".recording"@,
        forall|j: int| k < j < files.len() ==> (#[trigger] files[j]).name@ != id + ".recording"@,
    ensures
        after.dom().contains(id),
        after[id].owner_did@ == files[k].owner_dir@,
        after[id].path@ == files[k].path@,
        after[id].index@ == crate::persistence::vault::recording_log::index_from(
            files[k].contents@,
            0,
            Map::empty(),
        ),
{
    lemma_last_log(files, id, k);
    assert(after.dom().contains(id));
}

/// The file names of logs are those with the ending and something in front of it.
proof fn lemma_logged_recording(name: Seq<char>, id: Seq<char>)
    ensures
        logged_recording(name) == Some(id) <==> id.len() > 0 && name == id + ".recording"@,
{
    let end = ".recording"@;
    let n = name.len() - end.len();
    if id.len() > 0 && name == id + end {
        assert(name.subrange(n as int, name.len() as int) =~= end);
        assert(name.subrange(0, n as int) =~= id);
    }
    if logged_recording(name) == Some(id) {
        assert(name =~= name.subrange(0, n as int) + name.subrange(n as int, name.len() as int));
    }
}

proof fn lemma_last_log(files: Seq<LogFile>, id: Seq<char>, k: int)
    requires
        id.len() > 0,
        0 <= k < files.len(),
        files[k].name@ == id + ".recording"@,
        forall|j: int| k < j < files.len() ==> (#[trigger] files[j]).name@ != id + ".recording"@,
    ensures
        last_log(files, id) == Some(files[k]),
    decreases files.len(),
{
    lemma_logged_recording(files.last().name@, id);
    if k < files.len() - 1 {
        assert(files[files.len() - 1].name@ != id + ".recording"@);
        let front = files.drop_last();
        assert forall|j: int| k < j < front.len() implies (#[trigger] front[j]).name@ != id
            + ".recording"@ by {
            assert(files[j].name@ != id + ".recording"@);
        }
        lemma_last_log(front, id, k);
    }
}

/// The highest sequence of an index that is not empty.
proof fn lemma_highest(index: Map<u32, u64>, s: u32) -> (top: u32)
    requires
        index.dom().contains(s),
    ensures
        index.dom().contains(top),
        forall|t: u32| #[trigger] index.dom().contains(t) ==> t <= top,
    decreases u32::MAX - s,
{
    if exists|t: u32| #[trigger] index.dom().contains(t) && t > s {
        let t = choose|t: u32| #[trigger] index.dom().contains(t) && t > s;
        lemma_highest(index, t)
    } else {
        s
    }
}

impl Guardian {
    pub open spec fn wf(&self) -> bool {
        &&& self.ledger.wf()
        &&& self.recording_logs.wf()
        &&& self.revoked_recordings.wf()
        &&& self.content_keyring.wf()
        &&& self.recording_metadata.wf()
        &&& self.contexts.wf()
        &&& forall|id: Seq<char>| #[trigger]
            self.recording_logs@.dom().contains(id) ==> self.recording_logs@[id].index.wf()
    }

    /// Shards of this recording are refused.
    pub open spec fn revoked(&self, recording_id: Seq<char>) -> bool {
        self.revoked_recordings@.dom().contains(recording_id)
    }

    /// The recording is on disk or being put together.
    pub open spec fn holds(&self, recording_id: Seq<char>) -> bool {
        self.recording_logs@.dom().contains(recording_id) || self.contexts@.dom().contains(
            recording_id,
        )
    }

    /// The recording is to be listed: held, or with a stored key, and not revoked.
    pub open spec fn listed(&self, recording_id: Seq<char>) -> bool {
        &&& self.holds(recording_id) || self.content_keyring@.dom().contains(recording_id)
        &&& !self.revoked(recording_id)
    }

    /// The estimated bytes of all shards being put together.
    pub open spec fn workbench_bytes(&self) -> int {
        total_len(self.contexts.values()) * AVG_ENVELOPE_BYTES
    }

    /// The key of a recording: the stored one, else the derived one.
    pub open spec fn key_for(&self, recording_id: Seq<char>, derived: [u8; 32]) -> [u8; 32] {
        if self.content_keyring@.dom().contains(recording_id) {
            self.content_keyring@[recording_id]
        } else {
            derived
        }
    }

    /// `after` is `before` without the stored key of a recording.
    pub open spec fn key_removed(before: Self, after: Self, recording_id: Seq<char>) -> bool {
        &&& after == (Guardian { content_keyring: after.content_keyring, ..before })
        &&& after.content_keyring@ == before.content_keyring@.remove(recording_id)
    }

    /// `after` is `before` with a recording marked as revoked and without its
    /// log, its shards and its policy.
    pub open spec fn traces_removed(before: Self, after: Self, recording_id: Seq<char>) -> bool {
        &&& after == (Guardian {
            recording_logs: after.recording_logs,
            contexts: after.contexts,
            revoked_recordings: after.revoked_recordings,
            recording_metadata: after.recording_metadata,
            ..before
        })
        &&& after.recording_logs@ == before.recording_logs@.remove(recording_id)
        &&& after.contexts@ == before.contexts@.remove(recording_id)
        &&& after.revoked_recordings@ == before.revoked_recordings@.insert(recording_id, ())
        &&& after.recording_metadata.map@ == before.recording_metadata.map@.remove(recording_id)
    }

    /// An empty vault.
    pub fn new(vault_path: String, local_did: String) -> (guardian: Self)
        ensures
            guardian.wf(),
            guardian.vault_path == vault_path,
            guardian.local_did == local_did,
            guardian.ledger.local_total() == 0,
            guardian.ledger.own_bytes_pushed == 0,
            guardian.ledger.foreign_bytes_by_owner@ == Map::<Seq<char>, u64>::empty(),
            guardian.recording_logs@ == Map::<Seq<char>, RecordingLog>::empty(),
            guardian.revoked_recordings@ == Map::<Seq<char>, ()>::empty(),
            guardian.content_keyring@ == Map::<Seq<char>, [u8; 32]>::empty(),
            guardian.recording_metadata.map@ == Map::<Seq<char>, RecordingMetadata>::empty(),
            guardian.contexts@ == Map::<Seq<char>, Vec<Envelope>>::empty(),
    {
        Guardian {
            vault_path,
            local_did,
            ledger: StorageLedger::new(),
            recording_logs: TextMap::new(),
            revoked_recordings: TextMap::new(),
            content_keyring: TextMap::new(),
            recording_metadata: RecordingMetadataStore::new(),
            contexts: TextMap::new(),
        }
    }

    /// Returns `true` if the recording exists locally.
    pub fn has_recording(&self, recording_id: &String) -> (b: bool)
        requires
            self.wf(),
        ensures
            b == self.holds(recording_id@),
    {
        self.recording_logs.contains(recording_id) || self.contexts.contains(recording_id)
    }

    fn collect_listed<T>(&self, source: &TextMap<T>, ids: &mut Vec<String>)
        requires
            self.wf(),
            source.wf(),
            text::ascending(text::views(old(ids)@)),
        ensures
            text::ascending(text::views(final(ids)@)),
            text::views(final(ids)@).to_set() == text::views(old(ids)@).to_set().union(
                source@.dom().difference(self.revoked_recordings@.dom()),
            ),
    {
        let ghost start = text::views(ids@).to_set();
        let mut i: usize = 0;
        let n: usize = source.len();
        proof {
            source.lemma_entries();
        }
        assert(start =~= start.union(
            source.keys().subrange(0, 0).to_set().difference(self.revoked_recordings@.dom()),
        ));
        while i < n
            invariant
                self.wf(),
                source.wf(),
                n == source.keys().len(),
                i <= n,
                text::ascending(text::views(ids@)),
                text::views(ids@).to_set() == start.union(
                    source.keys().subrange(0, i as int).to_set().difference(
                        self.revoked_recordings@.dom(),
                    ),
                ),
            decreases n - i,
        {
            let id = source.key_at(i);
            let ghost seen = source.keys().subrange(0, i as int);
            let ghost more = source.keys().subrange(0, i + 1);
            proof {
                assert(more =~= seen.push(id@));
                assert(more.to_set() =~= seen.to_set().insert(id@)) by {
                    seen.lemma_push_to_set_commute(id@);
                }
            }
            if !self.revoked_recordings.contains(id) {
                text::insert_name(ids, id);
                assert(text::views(ids@).to_set() =~= start.union(
                    more.to_set().difference(self.revoked_recordings@.dom()),
                ));
            } else {
                assert(text::views(ids@).to_set() =~= start.union(
                    more.to_set().difference(self.revoked_recordings@.dom()),
                ));
            }
            i += 1;
        }
        assert(source.keys().subrange(0, n as int) =~= source.keys());
        assert(source.keys().to_set() =~= source@.dom());
    }

    /// `ids` are the recordings that are to be listed.
    pub open spec fn is_listing(&self, ids: Seq<Seq<char>>) -> bool {
        &&& text::ascending(ids)
        &&& forall|id: Seq<char>| ids.contains(id) <==> #[trigger] self.listed(id)
    }

    /// A recording is listed, once, exactly where it has a log, shards on the workbench
    /// or a stored key, and is not revoked.
    pub proof fn law_every_known_recording_is_listed(&self, ids: Seq<Seq<char>>, id: Seq<char>)
        requires
            self.is_listing(ids),
        ensures
            ids.contains(id) <==> (self.recording_logs@.dom().contains(id)
                || self.contexts@.dom().contains(id) || self.content_keyring@.dom().contains(id))
                && !self.revoked_recordings@.dom().contains(id),
            ids.no_duplicates(),
    {
        assert(ids.contains(id) <==> self.listed(id));
        assert forall|i: int, j: int| 0 <= i < ids.len() && 0 <= j < ids.len() && i != j implies ids[i]
            != ids[j] by {
            text::lemma_text_order(ids[i], ids[j]);
            if i < j {
                assert(text::text_before(ids[i], ids[j]));
            } else {
                assert(text::text_before(ids[j], ids[i]));
            }
        }
    }

    /// Returns all recordings known to this node, in the order of their names:
    /// on disk, being put together, or with a stored key. Revoked ones are left out.
    pub fn list_all_recordings(&self) -> (ids: Vec<String>)
        requires
            self.wf(),
        ensures
            self.is_listing(text::views(ids@)),
    {
        let mut ids: Vec<String> = Vec::new();
        self.collect_listed(&self.recording_logs, &mut ids);
        self.collect_listed(&self.contexts, &mut ids);
        self.collect_listed(&self.content_keyring, &mut ids);
        proof {
            assert forall|id: Seq<char>|
                text::views(ids@).contains(id) <==> #[trigger] self.listed(id) by {
                assert(text::views(ids@).contains(id) == text::views(ids@).to_set().contains(id));
            }
        }
        ids
    }

    /// All recordings that have a log, in the order of their names.
    pub fn list_recordings(&self) -> (ids: Vec<String>)
        requires
            self.wf(),
        ensures
            text::ascending(text::views(ids@)),
            text::views(ids@).to_set() == self.recording_logs@.dom(),
    {
        self.recording_logs.sorted_keys()
    }

    /// `info` is how many shards the log of a recording has, and whether its key is stored.
    pub open spec fn is_info(&self, recording_id: Seq<char>, info: (usize, bool)) -> bool {
        &&& info.0 == if self.recording_logs@.dom().contains(recording_id) {
            self.recording_logs@[recording_id].index@.dom().len()
        } else {
            0
        }
        &&& info.1 == self.content_keyring@.dom().contains(recording_id)
    }

    /// With every shard of a new sequence the number of shards grows by one, and with no
    /// other.
    pub proof fn law_shards_are_counted_by_sequence(
        before: Self,
        after: Self,
        recording_id: Seq<char>,
        sequence_id: u32,
        offset: u64,
        noted: Result<(), GuardianError>,
        first: (usize, bool),
        second: (usize, bool),
    )
        requires
            before.recording_logs@[recording_id].index@.dom().finite(),
            Self::appended(before, after, recording_id, sequence_id, offset, noted),
            before.is_info(recording_id, first),
            after.is_info(recording_id, second),
        ensures
            noted is Ok && !before.recording_logs@[recording_id].index@.dom().contains(sequence_id)
                ==> second.0 == first.0 + 1,
            noted is Ok && before.recording_logs@[recording_id].index@.dom().contains(sequence_id)
                ==> second.0 == first.0,
            noted is Err ==> first.0 == 0 && second.0 == 0,
            second.1 == first.1,
    {
        let was = before.recording_logs@[recording_id].index@;
        assert(was.insert(sequence_id, offset).dom() =~= was.dom().insert(sequence_id));
        if was.dom().contains(sequence_id) {
            assert(was.dom().insert(sequence_id) =~= was.dom());
        }
    }

    /// The number of shards in a recording's log, and whether its key is stored.
    pub fn debug_recording_info(&self, recording_id: &String) -> (info: (usize, bool))
        requires
            self.wf(),
        ensures
            self.is_info(recording_id@, info),
    {
        let shards: usize = match self.recording_logs.get(recording_id) {
            Some(log) => log.index.len(),
            None => 0,
        };
        (shards, self.content_keyring.contains(recording_id))
    }

    /// What forgetting a recording does.
    pub open spec fn deleted(
        before: Self,
        after: Self,
        recording_id: Seq<char>,
        log_path: Option<String>,
    ) -> bool {
        &&& after == (Guardian {
            recording_logs: after.recording_logs,
            contexts: after.contexts,
            content_keyring: after.content_keyring,
            ..before
        })
        &&& after.recording_logs@ == before.recording_logs@.remove(recording_id)
        &&& after.contexts@ == before.contexts@.remove(recording_id)
        &&& after.content_keyring@ == before.content_keyring@.remove(recording_id)
        &&& match log_path {
            Some(p) => before.recording_logs@.dom().contains(recording_id) && p
                == before.recording_logs@[recording_id].path,
            None => !before.recording_logs@.dom().contains(recording_id),
        }
    }

    /// A recording that was deleted is in the vault no more, its log file is named, and
    /// everything else is untouched; a shard of it would be taken again.
    pub proof fn law_deleting_touches_one_recording(
        before: Self,
        after: Self,
        recording_id: Seq<char>,
        log_path: Option<String>,
        other: Seq<char>,
    )
        requires
            Self::deleted(before, after, recording_id, log_path),
        ensures
            !after.recording_logs@.dom().contains(recording_id),
            !after.contexts@.dom().contains(recording_id),
            !after.content_keyring@.dom().contains(recording_id),
            after.revoked_recordings == before.revoked_recordings,
            after.recording_metadata == before.recording_metadata,
            after.ledger == before.ledger,
            before.recording_logs@.dom().contains(recording_id) ==> log_path == Some(
                before.recording_logs@[recording_id].path,
            ),
            !before.recording_logs@.dom().contains(recording_id) ==> log_path is None,
            other != recording_id ==> {
                &&& after.recording_logs@.dom().contains(other)
                    == before.recording_logs@.dom().contains(other)
                &&& after.contexts@.dom().contains(other) == before.contexts@.dom().contains(other)
                &&& after.content_keyring@.dom().contains(other)
                    == before.content_keyring@.dom().contains(other)
                &&& after.recording_logs@.dom().contains(other) ==> after.recording_logs@[other]
                    == before.recording_logs@[other]
                &&& after.contexts@.dom().contains(other) ==> after.contexts@[other]
                    == before.contexts@[other]
                &&& after.content_keyring@.dom().contains(other) ==> after.content_keyring@[other]
                    == before.content_keyring@[other]
            },
    {
    }

    /// Forgets a recording without revoking it. Gives the log file to remove.
    pub fn debug_delete_recording(&mut self, recording_id: &String) -> (log_path: Option<String>)
        requires
            old(self).wf(),
        ensures
            final(self).wf(),
            Self::deleted(*old(self), *final(self), recording_id@, log_path),
    {
        let removed = self.recording_logs.remove(recording_id);
        self.contexts.remove(recording_id);
        self.content_keyring.remove(recording_id);
        match removed {
            Some(log) => Some(log.path),
            None => None,
        }
    }

    /// `after` is `before` with this key of a recording.
    pub open spec fn key_stored(
        before: Self,
        after: Self,
        recording_id: Seq<char>,
        key: [u8; 32],
    ) -> bool {
        &&& after == (Guardian { content_keyring: after.content_keyring, ..before })
        &&& after.content_keyring@ == before.content_keyring@.insert(recording_id, key)
    }

    /// What a drawn key does.
    pub open spec fn drawn_effect(
        before: Self,
        after: Self,
        recording_id: Seq<char>,
        drawn: Option<[u8; 32]>,
        key: Option<[u8; 32]>,
    ) -> bool {
        &&& key == drawn
        &&& after == (Guardian { content_keyring: after.content_keyring, ..before })
        &&& after.content_keyring@ == match drawn {
            Some(k) => before.content_keyring@.insert(recording_id, k),
            None => before.content_keyring@,
        }
    }

    /// A stored key opens its recording from then on, whatever was stored before and
    /// whatever could be derived, and no other recording's key changes; a key that was
    /// drawn is stored like any other, and given back.
    pub proof fn law_stored_keys_open_their_recordings(
        before: Self,
        after: Self,
        drawn_after: Self,
        recording_id: Seq<char>,
        key: [u8; 32],
        given: Option<[u8; 32]>,
        derived: [u8; 32],
        other: Seq<char>,
    )
        requires
            Self::key_stored(before, after, recording_id, key),
            Self::drawn_effect(before, drawn_after, recording_id, Some(key), given),
        ensures
            after.key_for(recording_id, derived) == key,
            drawn_after.key_for(recording_id, derived) == key,
            given == Some(key),
            other != recording_id ==> after.key_for(other, derived) == before.key_for(
                other,
                derived,
            ) && drawn_after.key_for(other, derived) == before.key_for(other, derived),
            !before.content_keyring@.dom().contains(other) && other != recording_id
                ==> after.key_for(other, derived) == derived,
            after.recording_logs == before.recording_logs,
            after.contexts == before.contexts,
    {
    }

    /// Stores the key of a foreign recording.
    pub fn register_content_key(&mut self, recording_id: &String, key: [u8; 32])
        requires
            old(self).wf(),
        ensures
            final(self).wf(),
            Self::key_stored(*old(self), *final(self), recording_id@, key),
    {
        self.content_keyring.insert(recording_id.clone(), key);
    }

    /// Stores the key that was drawn for a foreign recording, in place of any key
    /// from before, and gives it back. Where none could be drawn, nothing is
    /// stored.
    pub fn keep_drawn_key(&mut self, recording_id: &String, drawn: Option<[u8; 32]>) -> (key:
        Option<[u8; 32]>)
        requires
            old(self).wf(),
        ensures
            final(self).wf(),
            Self::drawn_effect(*old(self), *final(self), recording_id@, drawn, key),
    {
        match drawn {
            Some(key) => {
                self.register_content_key(recording_id, key);
                Some(key)
            },
            None => None,
        }
    }

    /// Mints a random key for a foreign recording and stores it. Without
    /// randomness nothing is stored.
    pub fn mint_foreign_content_key(&mut self, recording_id: &String) -> (key: Option<[u8; 32]>)
        requires
            old(self).wf(),
        ensures
            final(self).wf(),
            *final(self) == (Guardian {
                content_keyring: final(self).content_keyring,
                ..*old(self)
            }),
            final(self).content_keyring@ == match key {
                Some(k) => old(self).content_keyring@.insert(recording_id@, k),
                None => old(self).content_keyring@,
            },
    {
        let drawn = crypto::random_key();
        self.keep_drawn_key(recording_id, drawn)
    }

    /// What is written of the stored keys, before encryption: the recordings in
    /// the order of their names, each with its key.
    pub fn keyring_plaintext(&self) -> (data: Vec<u8>)
        requires
            self.wf(),
        ensures
            is_written_keyring(self.content_keyring@, data@),
    {
        let names = self.content_keyring.sorted_keys();
        let mut table: Vec<(String, [u8; 32])> = Vec::new();
        let mut i: usize = 0;
        while i < names.len()
            invariant
                self.wf(),
                text::views(names@).to_set() == self.content_keyring@.dom(),
                i <= names@.len(),
                table@.len() == i,
                forall|k: int|
                    0 <= k < i ==> (#[trigger] table@[k]).0@ == names@[k]@ && table@[k].1
                        == self.content_keyring@[names@[k]@],
            decreases names@.len() - i,
        {
            assert(text::views(names@)[i as int] == names@[i as int]@);
            assert(text::views(names@).to_set().contains(names@[i as int]@));
            match self.content_keyring.get(&names[i]) {
                Some(key) => {
                    table.push((names[i].clone(), *key));
                },
                None => {},
            }
            i += 1;
        }
        proof {
            let rows = wire::key_rows(table@);
            assert(text_map::names_of(rows) =~= text::views(names@));
            assert forall|k: int| 0 <= k < rows.len() implies (#[trigger] rows[k]).1
                == self.content_keyring@[rows[k].0] by {
                assert(table@[k].0@ == names@[k]@);
            }
            assert(text_map::are_entries(rows, self.content_keyring@));
        }
        wire::encode_key_rows(&table)
    }

    /// What the loading of a keyring does.
    pub open spec fn keyring_loaded(
        before: Self,
        after: Self,
        plaintext: Seq<u8>,
        loaded: Result<(), GuardianError>,
    ) -> bool {
        &&& after == (Guardian { content_keyring: after.content_keyring, ..before })
        &&& match wire::postcard_key_rows(usize::BITS as nat, plaintext) {
            Ok(rows) => loaded is Ok && after.content_keyring@ == text_map::map_of(rows),
            Err(words) => {
                &&& loaded matches Err(e) && e.is_serialization(words)
                &&& after.content_keyring@ == before.content_keyring@
            },
        }
        &&& forall|keyring: Map<Seq<char>, [u8; 32]>| #[trigger]
            is_written_keyring(keyring, plaintext) ==> loaded is Ok && after.content_keyring@
                == keyring
    }

    /// A keyring that was written is there again after a restart: every recording opens
    /// with the key that it had, and with no other.
    pub proof fn law_written_keys_are_loaded(
        written: Self,
        before: Self,
        after: Self,
        plaintext: Seq<u8>,
        loaded: Result<(), GuardianError>,
        recording_id: Seq<char>,
        derived: [u8; 32],
    )
        requires
            is_written_keyring(written.content_keyring@, plaintext),
            Self::keyring_loaded(before, after, plaintext, loaded),
        ensures
            loaded is Ok,
            after.key_for(recording_id, derived) == written.key_for(recording_id, derived),
            after.content_keyring@ == written.content_keyring@,
            after.recording_logs == before.recording_logs,
    {
    }

    /// Takes the keys out of what was written of them, in place of those held
    /// before. What cannot be read changes nothing. What was written of a keyring
    /// is that keyring again.
    pub fn load_keyring(&mut self, plaintext: &[u8]) -> (loaded: Result<(), GuardianError>)
        requires
            old(self).wf(),
        ensures
            final(self).wf(),
            Self::keyring_loaded(*old(self), *final(self), plaintext@, loaded),
    {
        let table = match wire::decode_key_rows(plaintext) {
            Ok(table) => table,
            Err(words) => {
                return Err(GuardianError::SerializationError(words));
            },
        };
        let ghost rows = wire::key_rows(table@);
        let mut keyring: TextMap<[u8; 32]> = TextMap::new();
        let mut i: usize = 0;
        assert(rows.subrange(0, 0) =~= Seq::<(Seq<char>, [u8; 32])>::empty());
        while i < table.len()
            invariant
                rows == wire::key_rows(table@),
                i <= table@.len(),
                keyring.wf(),
                keyring@ == text_map::map_of(rows.subrange(0, i as int)),
            decreases table@.len() - i,
        {
            proof {
                let longer = rows.subrange(0, i + 1);
                assert(longer.drop_last() =~= rows.subrange(0, i as int));
                assert(longer.last() == rows[i as int]);
            }
            keyring.insert(table[i].0.clone(), table[i].1);
            i += 1;
        }
        self.content_keyring = keyring;
        proof {
            assert(rows.subrange(0, i as int) =~= rows);
            assert forall|held: Map<Seq<char>, [u8; 32]>| #[trigger]
                is_written_keyring(held, plaintext@) implies self.content_keyring@ == held by {
                let written = choose|r: Seq<(Seq<char>, [u8; 32])>|
                    text_map::are_entries(r, held) && plaintext@ == #[trigger] wire::key_rows_bytes(
                        r,
                    );
                assert(rows == written);
                text_map::lemma_entries_stand_for(written, held);
            }
        }
        Ok(())
    }

    /// The key of a revoked recording is gone from what is written of the keyring
    /// before any of its data is touched: no row bears its name, and the others
    /// are those from before.
    pub proof fn law_revoked_key_is_not_written(
        before: Guardian,
        keyless: Guardian,
        recording_id: Seq<char>,
        rows: Seq<(Seq<char>, [u8; 32])>,
    )
        requires
            Self::key_removed(before, keyless, recording_id),
            text_map::are_entries(rows, keyless.content_keyring@),
        ensures
            keyless.recording_logs == before.recording_logs,
            !text_map::names_of(rows).contains(recording_id),
            forall|other: Seq<char>|
                other != recording_id ==> (#[trigger] text_map::names_of(rows).contains(other)
                    == before.content_keyring@.dom().contains(other)),
            forall|i: int|
                0 <= i < rows.len() ==> (#[trigger] rows[i]).1
                    == before.content_keyring@[rows[i].0],
    {
        let names = text_map::names_of(rows);
        assert(names.contains(recording_id) == names.to_set().contains(recording_id));
        assert forall|other: Seq<char>| other != recording_id implies (
        #[trigger] names.contains(other) == before.content_keyring@.dom().contains(other)) by {
            assert(names.contains(other) == names.to_set().contains(other));
        }
        assert forall|i: int| 0 <= i < rows.len() implies (#[trigger] rows[i]).1
            == before.content_keyring@[rows[i].0] by {
            assert(names[i] == rows[i].0);
            assert(names.contains(rows[i].0));
        }
    }

    /// Takes the policies out of what was written of them; `None` stands for a file
    /// that is not there.
    pub fn load_recording_metadata(&mut self, plaintext: Option<&[u8]>) -> (loaded: Result<
        (),
        GuardianError,
    >)
        requires
            old(self).wf(),
        ensures
            final(self).wf(),
            *final(self) == (Guardian {
                recording_metadata: final(self).recording_metadata,
                ..*old(self)
            }),
            RecordingMetadataStore::load_effect(
                old(self).recording_metadata,
                final(self).recording_metadata,
                match plaintext {
                    Some(data) => Some(data@),
                    None => None,
                },
                loaded,
            ),
    {
        self.recording_metadata.load(plaintext)
    }

    /// The stored key of a recording, if any.
    pub fn get_content_key(&self, recording_id: &String) -> (key: Option<[u8; 32]>)
        requires
            self.wf(),
        ensures
            match key {
                Some(k) => self.content_keyring@.dom().contains(recording_id@) && k
                    == self.content_keyring@[recording_id@],
                None => !self.content_keyring@.dom().contains(recording_id@),
            },
    {
        match self.content_keyring.get(recording_id) {
            Some(k) => Some(*k),
            None => None,
        }
    }

    /// Destroys the stored key of a recording: it is wiped and removed. Tells
    /// whether there was one.
    pub fn destroy_content_key(&mut self, recording_id: &String) -> (destroyed: bool)
        requires
            old(self).wf(),
        ensures
            final(self).wf(),
            Self::key_removed(*old(self), *final(self), recording_id@),
            destroyed == old(self).content_keyring@.dom().contains(recording_id@),
    {
        match self.content_keyring.remove(recording_id) {
            Some(k) => {
                let mut key = k;
                crypto::wipe_key(&mut key);
                true
            },
            None => false,
        }
    }

    /// The key that opens a recording: the stored one if there is one, else the
    /// derived one that is handed in.
    pub fn resolve_encryption_key(&self, recording_id: &String, derived: [u8; 32]) -> (key: [u8;
        32])
        requires
            self.wf(),
        ensures
            key == self.key_for(recording_id@, derived),
    {
        match self.get_content_key(recording_id) {
            Some(k) => k,
            None => derived,
        }
    }

    /// Whether the mesh may hear of the recording.
    pub fn is_recording_publishable(&self, recording_id: &String) -> (b: bool)
        requires
            self.wf(),
        ensures
            b == self.recording_metadata.publishable(recording_id@),
    {
        self.recording_metadata.is_publishable(recording_id)
    }

    /// Sets the policy of a recording.
    pub fn set_recording_metadata(&mut self, recording_id: String, metadata: RecordingMetadata)
        requires
            old(self).wf(),
        ensures
            final(self).wf(),
            *final(self) == (Guardian {
                recording_metadata: final(self).recording_metadata,
                ..*old(self)
            }),
            final(self).recording_metadata.map@ == old(self).recording_metadata.map@.insert(
                recording_id@,
                metadata,
            ),
    {
        self.recording_metadata.insert(recording_id, metadata);
    }

    /// The highest sequence in the log of a recording.
    pub open spec fn last_sequence(&self, recording_id: Seq<char>) -> Option<u32> {
        if self.recording_logs@.dom().contains(recording_id)
            && self.recording_logs@[recording_id].index@ != Map::<u32, u64>::empty() {
            Some(
                choose|s: u32|
                    #![trigger self.recording_logs@[recording_id].index@.dom().contains(s)]
                    self.recording_logs@[recording_id].index@.dom().contains(s) && forall|t: u32|
                        #[trigger]
                        self.recording_logs@[recording_id].index@.dom().contains(t) ==> t <= s,
            )
        } else {
            None
        }
    }

    /// `state` is where the manifest's chain stands.
    pub open spec fn is_chain_state(&self, manifest_id: Seq<char>, state: (u32, Option<u32>)) -> bool {
        &&& state.1 == self.last_sequence(manifest_id)
        &&& state.0 == match state.1 {
            Some(s) => s + 1,
            None => 1,
        }
    }

    /// The next entry of the manifest comes right behind the last one: behind every
    /// entry that there is, linked to the one right before it, and first where there
    /// is none.
    pub proof fn law_manifest_entries_follow_each_other(
        &self,
        manifest_id: Seq<char>,
        state: (u32, Option<u32>),
        s: u32,
    )
        requires
            self.wf(),
            self.is_chain_state(manifest_id, state),
            self.last_sequence(manifest_id) != Some(u32::MAX),
        ensures
            !self.recording_logs@.dom().contains(manifest_id) ==> state == (1u32, None::<u32>),
            self.recording_logs@.dom().contains(manifest_id)
                && self.recording_logs@[manifest_id].index@.dom().contains(s) ==> {
                &&& s < state.0
                &&& state.1 is Some
                &&& state.0 == state.1->0 + 1
                &&& self.recording_logs@[manifest_id].index@.dom().contains(state.1->0)
            },
    {
        if self.recording_logs@.dom().contains(manifest_id)
            && self.recording_logs@[manifest_id].index@.dom().contains(s) {
            let index = self.recording_logs@[manifest_id].index@;
            assert(index != Map::<u32, u64>::empty());
            let top = lemma_highest(index, s);
            assert(index.dom().contains(top));
        }
    }

    /// Where the manifest's chain stands: the sequence of the next entry, and
    /// the sequence of the entry whose link it must carry.
    pub fn manifest_chain_state(&self, manifest_id: &String) -> (state: (u32, Option<u32>))
        requires
            self.wf(),
            self.last_sequence(manifest_id@) != Some(u32::MAX),
        ensures
            self.is_chain_state(manifest_id@, state),
    {
        match self.recording_logs.get(manifest_id) {
            Some(log) => match log.index.last() {
                Some(s) => {
                    assert(self.last_sequence(manifest_id@) == Some(s));
                    (s + 1, Some(s))
                },
                None => (1, None),
            },
            None => (1, None),
        }
    }

    /// `shard` is the one of a sequence on the workbench.
    pub open spec fn is_shard(
        &self,
        recording_id: Seq<char>,
        sequence_id: u32,
        shard: Option<Envelope>,
    ) -> bool {
        match shard {
            Some(e) => self.contexts@.dom().contains(recording_id) && shard_with(
                self.contexts@[recording_id]@,
                sequence_id,
            ) == Some(e),
            None => !self.contexts@.dom().contains(recording_id) || shard_with(
                self.contexts@[recording_id]@,
                sequence_id,
            ) is None,
        }
    }

    /// A promoted shard is on the workbench: asked for, it is given.
    pub proof fn law_promoted_shards_are_given(
        before: Self,
        after: Self,
        envelope: Envelope,
        shard: Option<Envelope>,
    )
        requires
            Self::promoted_effect(before, after, envelope, false),
            after.is_shard(envelope.recording_id@, envelope.sequence_id, shard),
        ensures
            shard == Some(envelope),
    {
        let shards = after.contexts@[envelope.recording_id@]@;
        assert(shards.last() == envelope);
        assert(after.contexts@.dom().contains(envelope.recording_id@));
    }

    /// The shard of `sequence_id` among those being put together.
    pub fn get_shard(&self, recording_id: &String, sequence_id: u32) -> (shard: Option<&Envelope>)
        requires
            self.wf(),
        ensures
            self.is_shard(
                recording_id@,
                sequence_id,
                match shard {
                    Some(e) => Some(*e),
                    None => None,
                },
            ),
    {
        match self.contexts.get(recording_id) {
            None => None,
            Some(shards) => {
                let mut i: usize = shards.len();
                assert(shards@.subrange(0, i as int) =~= shards@);
                while i > 0
                    invariant
                        i <= shards@.len(),
                        self.contexts@.dom().contains(recording_id@),
                        *shards == self.contexts@[recording_id@],
                        shard_with(shards@, sequence_id) == shard_with(
                            shards@.subrange(0, i as int),
                            sequence_id,
                        ),
                    decreases i,
                {
                    i -= 1;
                    assert(shards@.subrange(0, i + 1).drop_last() =~= shards@.subrange(
                        0,
                        i as int,
                    ));
                    if shards[i].sequence_id == sequence_id {
                        return Some(&shards[i]);
                    }
                }
                None
            },
        }
    }

    /// The estimated bytes of all shards being put together.
    pub fn wal_bytes_estimate(&self) -> (n: u64)
        requires
            self.wf(),
            self.workbench_bytes() <= u64::MAX,
        ensures
            n == self.workbench_bytes(),
    {
        let mut sum: u64 = 0;
        let mut i: usize = 0;
        let n: usize = self.contexts.len();
        let ghost lists = self.contexts.values();
        assert(lists.subrange(0, 0) =~= Seq::<Vec<Envelope>>::empty());
        while i < n
            invariant
                lists == self.contexts.values(),
                n == lists.len(),
                i <= n,
                total_len(lists) * AVG_ENVELOPE_BYTES <= u64::MAX,
                sum == total_len(lists.subrange(0, i as int)) * AVG_ENVELOPE_BYTES,
            decreases n - i,
        {
            let shards = self.contexts.value_at(i);
            proof {
                lemma_total_len_monotone(lists, i + 1);
                assert(lists.subrange(0, i + 1).drop_last() =~= lists.subrange(0, i as int));
                assert(lists.subrange(0, i + 1).last() == *shards);
            }
            sum = sum + shards.len() as u64 * AVG_ENVELOPE_BYTES;
            i += 1;
        }
        assert(lists.subrange(0, n as int) =~= lists);
        sum
    }

    /// How an append is planned.
    pub open spec fn append_is_planned(
        &self,
        recording_id: Seq<char>,
        owner_dir: Seq<char>,
        plan: Result<AppendPlan, GuardianError>,
    ) -> bool {
        match plan {
            Err(e) => self.revoked(recording_id) && e.is_revoked(recording_id),
            Ok(p) => {
                &&& !self.revoked(recording_id)
                &&& match p {
                    AppendPlan::LogExists => self.recording_logs@.dom().contains(recording_id),
                    AppendPlan::OpenLog { dir, path } => {
                        &&& !self.recording_logs@.dom().contains(recording_id)
                        &&& dir@ == paths::path_of(self.vault_path@, owner_dir)
                        &&& path@ == paths::path_of(dir@, recording_id + ".recording"@)
                    },
                }
            },
        }
    }

    /// Every shard has a log to go to but those of a revoked recording: the one that is
    /// open, or a new one named after the recording in its owner's directory.
    pub proof fn law_every_shard_has_a_log(
        &self,
        recording_id: Seq<char>,
        owner_dir: Seq<char>,
        plan: Result<AppendPlan, GuardianError>,
    )
        requires
            self.append_is_planned(recording_id, owner_dir, plan),
        ensures
            plan is Err <==> self.revoked_recordings@.dom().contains(recording_id),
            plan is Ok ==> (plan->Ok_0 is LogExists <==> self.recording_logs@.dom().contains(
                recording_id,
            )),
            plan is Ok ==> (plan->Ok_0 matches AppendPlan::OpenLog { dir, path } ==> dir@
                == paths::path_of(self.vault_path@, owner_dir) && path@ == paths::path_of(
                dir@,
                recording_id + ".recording"@,
            )),
            plan matches Err(e) ==> e.is_revoked(recording_id),
    {
    }

    /// Decides how a shard is appended. Shards of revoked recordings are refused.
    pub fn plan_append(&self, recording_id: &String, owner_dir: &str) -> (plan: Result<
        AppendPlan,
        GuardianError,
    >)
        requires
            self.wf(),
        ensures
            self.append_is_planned(recording_id@, owner_dir@, plan),
    {
        if self.revoked_recordings.contains(recording_id) {
            return Err(GuardianError::RecordingRevoked(recording_id.clone()));
        }
        if self.recording_logs.contains(recording_id) {
            return Ok(AppendPlan::LogExists);
        }
        let dir = paths::join_path(self.vault_path.as_str(), owner_dir);
        let name = text::join(recording_id.as_str(), ".recording");
        let path = paths::join_path(dir.as_str(), name.as_str());
        Ok(AppendPlan::OpenLog { dir, path })
    }

    /// What the registration of a log does.
    pub open spec fn log_registered(
        before: Self,
        after: Self,
        recording_id: Seq<char>,
        owner_did: String,
        path: String,
        contents: Seq<u8>,
    ) -> bool {
        &&& after == (Guardian { recording_logs: after.recording_logs, ..before })
        &&& exists|log: RecordingLog|
            {
                &&& after.recording_logs@ == #[trigger] before.recording_logs@.insert(
                    recording_id,
                    log,
                )
                &&& log.owner_did == owner_did
                &&& log.path == path
                &&& log.index@ == crate::persistence::vault::recording_log::index_from(
                    contents,
                    0,
                    Map::empty(),
                )
            }
    }

    /// A registered log is the one that was given, with every shard of its contents where
    /// it stands in them: behind any well-framed contents a further shard is found at
    /// their end. No other log changes.
    pub proof fn law_registered_logs_know_their_shards(
        before: Self,
        after: Self,
        recording_id: Seq<char>,
        owner_did: String,
        path: String,
        log: Seq<u8>,
        sequence_id: u32,
        payload: Seq<u8>,
        other: Seq<char>,
    )
        requires
            crate::persistence::vault::recording_log::well_framed(log, 0),
            24 <= payload.len() <= 16 * 1024 * 1024,
            Self::log_registered(
                before,
                after,
                recording_id,
                owner_did,
                path,
                log + crate::persistence::vault::recording_log::frame_bytes(sequence_id, payload),
            ),
        ensures
            after.recording_logs@.dom().contains(recording_id),
            after.recording_logs@[recording_id].owner_did == owner_did,
            after.recording_logs@[recording_id].path == path,
            after.recording_logs@[recording_id].index@.dom().contains(sequence_id),
            after.recording_logs@[recording_id].index@[sequence_id] == log.len() as u64,
            other != recording_id ==> after.recording_logs@.dom().contains(other)
                == before.recording_logs@.dom().contains(other),
            other != recording_id && before.recording_logs@.dom().contains(other)
                ==> after.recording_logs@[other] == before.recording_logs@[other],
    {
        crate::persistence::vault::recording_log::law_append_is_readable(
            log,
            sequence_id,
            payload,
        );
    }

    /// Registers a log: one just created, with an empty index, or one found on
    /// disk, with the index of its contents.
    pub fn register_log(
        &mut self,
        recording_id: &String,
        owner_did: String,
        path: String,
        contents: &[u8],
    )
        requires
            old(self).wf(),
        ensures
            final(self).wf(),
            Self::log_registered(
                *old(self),
                *final(self),
                recording_id@,
                owner_did,
                path,
                contents@,
            ),
    {
        let index = rebuild_index(contents);
        let log = RecordingLog { index, owner_did, path };
        let ghost placed = log;
        self.recording_logs.insert(recording_id.clone(), log);
        assert(self.recording_logs@ == old(self).recording_logs@.insert(recording_id@, placed));
    }

    /// Takes up the logs that were found on disk at the start, each with the index
    /// of its contents. Files that are no logs are passed over.
    pub fn hydrate_recording_logs(&mut self, files: &Vec<LogFile>)
        requires
            old(self).wf(),
        ensures
            final(self).wf(),
            *final(self) == (Guardian { recording_logs: final(self).recording_logs, ..*old(self) }),
            logs_found(old(self).recording_logs@, final(self).recording_logs@, files@),
    {
        let ghost before = self.recording_logs@;
        let mut i: usize = 0;
        while i < files.len()
            invariant
                self.wf(),
                i <= files@.len(),
                *self == (Guardian { recording_logs: self.recording_logs, ..*old(self) }),
                before == old(self).recording_logs@,
                logs_found(before, self.recording_logs@, files@.subrange(0, i as int)),
            decreases files@.len() - i,
        {
            let ghost seen = files@.subrange(0, i as int);
            let ghost longer = files@.subrange(0, i + 1);
            let ghost held = self.recording_logs@;
            proof {
                assert(longer.drop_last() =~= seen);
                assert(longer.last() == files@[i as int]);
            }
            match recording_of_file(files[i].name.as_str()) {
                Some(id) => {
                    self.register_log(
                        &id,
                        files[i].owner_dir.clone(),
                        files[i].path.clone(),
                        files[i].contents.as_slice(),
                    );
                    proof {
                        assert forall|other: Seq<char>|
                            match last_log(longer, other) {
                                Some(file) => #[trigger] self.recording_logs@.dom().contains(
                                    other,
                                ) && is_log_of(self.recording_logs@[other], file),
                                None => self.recording_logs@.dom().contains(other)
                                    == before.dom().contains(other) && (before.dom().contains(
                                    other,
                                ) ==> self.recording_logs@[other] == before[other]),
                            } by {
                            if other != id@ {
                                assert(last_log(longer, other) == last_log(seen, other));
                                assert(held.dom().contains(other)
                                    == self.recording_logs@.dom().contains(other));
                            }
                        }
                    }
                },
                None => {
                    proof {
                        assert forall|other: Seq<char>|
                            last_log(longer, other) == #[trigger] last_log(seen, other) by {}
                    }
                },
            }
            i += 1;
        }
        assert(files@.subrange(0, i as int) =~= files@);
    }

    /// What an append does to the index of its log.
    pub open spec fn appended(
        before: Self,
        after: Self,
        recording_id: Seq<char>,
        sequence_id: u32,
        offset: u64,
        noted: Result<(), GuardianError>,
    ) -> bool {
        &&& after == (Guardian { recording_logs: after.recording_logs, ..before })
        &&& match noted {
            Ok(()) => {
                &&& before.recording_logs@.dom().contains(recording_id)
                &&& after.recording_logs@.dom() == before.recording_logs@.dom()
                &&& after.recording_logs@[recording_id].index@
                    == before.recording_logs@[recording_id].index@.insert(sequence_id, offset)
                &&& after.recording_logs@[recording_id].owner_did
                    == before.recording_logs@[recording_id].owner_did
                &&& after.recording_logs@[recording_id].path
                    == before.recording_logs@[recording_id].path
                &&& forall|id: Seq<char>|
                    id != recording_id && before.recording_logs@.dom().contains(id) ==> #[trigger]
                        after.recording_logs@[id] == before.recording_logs@[id]
            },
            Err(e) => {
                &&& !before.recording_logs@.dom().contains(recording_id)
                &&& after.recording_logs@ == before.recording_logs@
                &&& e.is_storage_failure("recording log missing after insert"@)
            },
        }
    }

    /// Where a shard starts, or why there is none.
    pub open spec fn is_located(
        &self,
        recording_id: Seq<char>,
        sequence_id: u32,
        offset: Result<u64, GuardianError>,
    ) -> bool {
        match offset {
            Ok(o) => {
                &&& self.recording_logs@.dom().contains(recording_id)
                &&& self.recording_logs@[recording_id].index@.dom().contains(sequence_id)
                &&& o == self.recording_logs@[recording_id].index@[sequence_id]
            },
            Err(e) => if !self.recording_logs@.dom().contains(recording_id) {
                e.is_storage_failure("No recording log for "@ + recording_id)
            } else {
                &&& !self.recording_logs@[recording_id].index@.dom().contains(sequence_id)
                &&& e.is_storage_failure(
                    "Shard "@ + text::digits(sequence_id as nat) + " not found in recording "@
                        + recording_id,
                )
            },
        }
    }

    /// A shard is found where it was last appended, and an append moves no other
    /// shard, of its recording or of another.
    pub proof fn law_appended_shards_are_located(
        before: Self,
        after: Self,
        recording_id: Seq<char>,
        sequence_id: u32,
        offset: u64,
        noted: Result<(), GuardianError>,
        wanted: Seq<char>,
        wanted_sequence: u32,
        earlier: Result<u64, GuardianError>,
        later: Result<u64, GuardianError>,
    )
        requires
            Self::appended(before, after, recording_id, sequence_id, offset, noted),
            before.is_located(wanted, wanted_sequence, earlier),
            after.is_located(wanted, wanted_sequence, later),
        ensures
            noted is Ok <==> before.recording_logs@.dom().contains(recording_id),
            noted is Ok && wanted == recording_id && wanted_sequence == sequence_id ==> later is Ok
                && later->Ok_0 == offset,
            wanted != recording_id || wanted_sequence != sequence_id || noted is Err ==> (later is Ok
                <==> earlier is Ok),
            (wanted != recording_id || wanted_sequence != sequence_id || noted is Err)
                && earlier is Ok ==> later->Ok_0 == earlier->Ok_0,
    {
        if noted is Ok && wanted != recording_id && before.recording_logs@.dom().contains(wanted) {
            assert(after.recording_logs@[wanted] == before.recording_logs@[wanted]);
        }
    }

    /// Notes that the shard of `sequence_id` was appended at `offset`. Without a
    /// log there is nothing to note.
    pub fn note_appended(&mut self, recording_id: &String, sequence_id: u32, offset: u64) -> (
        noted: Result<(), GuardianError>)
        requires
            old(self).wf(),
        ensures
            final(self).wf(),
            Self::appended(*old(self), *final(self), recording_id@, sequence_id, offset, noted),
    {
        let ghost before = self.recording_logs@;
        match self.recording_logs.remove(recording_id) {
            Some(l) => {
                let mut log = l;
                log.index.insert(sequence_id, offset);
                self.recording_logs.insert(recording_id.clone(), log);
                assert(self.recording_logs@.dom() =~= before.dom());
                Ok(())
            },
            None => {
                assert(self.recording_logs@ =~= before);
                Err(
                    GuardianError::StorageFailure("recording log missing after insert".to_owned()),
                )
            },
        }
    }

    /// Where in its log a shard starts, or why there is no such shard.
    pub fn locate_shard(&self, recording_id: &String, sequence_id: u32) -> (offset: Result<
        u64,
        GuardianError,
    >)
        requires
            self.wf(),
        ensures
            self.is_located(recording_id@, sequence_id, offset),
    {
        match self.recording_logs.get(recording_id) {
            None => Err(
                GuardianError::StorageFailure(
                    text::join("No recording log for ", recording_id.as_str()),
                ),
            ),
            Some(log) => match log.index.get(sequence_id) {
                Some(o) => Ok(o),
                None => {
                    let number = text::decimal(sequence_id as u64);
                    let mut m = text::join("Shard ", number.as_str());
                    m.append(" not found in recording ");
                    m.append(recording_id.as_str());
                    Err(GuardianError::StorageFailure(m))
                },
            },
        }
    }

    /// The shards of a recording that are on the workbench.
    pub fn get_active_recording_shards(&self, recording_id: &String) -> (shards: Option<
        &Vec<Envelope>,
    >)
        requires
            self.wf(),
        ensures
            match shards {
                Some(list) => self.contexts@.dom().contains(recording_id@) && *list
                    == self.contexts@[recording_id@],
                None => !self.contexts@.dom().contains(recording_id@),
            },
    {
        self.contexts.get(recording_id)
    }

    /// Where a finished recording is sealed: its owner's directory, and in it a
    /// file beside the log.
    pub fn sealed_file(&self, owner_dir: &str, recording_name: &str) -> (place: (String, String))
        ensures
            place.0@ == paths::path_of(self.vault_path@, owner_dir@),
            place.1@ == paths::path_of(place.0@, recording_name@ + ".sealed"@),
    {
        let dir = paths::join_path(self.vault_path.as_str(), owner_dir);
        let name = text::join(recording_name, ".sealed");
        let path = paths::join_path(dir.as_str(), name.as_str());
        (dir, path)
    }

    /// A sealed recording never overwrites a log.
    pub proof fn law_sealed_files_spare_the_logs(
        sealed_dir: Seq<char>,
        sealed_name: Seq<char>,
        log_dir: Seq<char>,
        log_name: Seq<char>,
    )
        ensures
            paths::path_of(sealed_dir, sealed_name + ".sealed"@) != paths::path_of(
                log_dir,
                log_name + ".recording"@,
            ),
    {
        reveal_strlit(".sealed");
        reveal_strlit(".recording");
        let a = paths::path_of(sealed_dir, sealed_name + ".sealed"@);
        let b = paths::path_of(log_dir, log_name + ".recording"@);
        assert(a.last() == 'd');
        assert(b.last() == 'g');
    }

    /// How an envelope is to be checked before it is promoted: against the link
    /// of its predecessor where that is at hand, with a tolerance of at most
    /// half a minute. Envelopes of revoked recordings are refused.
    pub fn plan_promotion(&self, envelope: &Envelope, tolerance_ms: u64) -> (plan: Result<
        PromotionPlan,
        GuardianError,
    >)
        requires
            self.wf(),
        ensures
            self.promotion_is_planned(*envelope, tolerance_ms, plan),
    {
        if self.revoked_recordings.contains(&envelope.recording_id) {
            return Err(GuardianError::RecordingRevoked(envelope.recording_id.clone()));
        }
        let mut anchor: Option<Vec<u8>> = None;
        if envelope.sequence_id > 1 {
            match self.get_shard(&envelope.recording_id, envelope.sequence_id - 1) {
                Some(prev) => {
                    let mut link: Vec<u8> = Vec::new();
                    crate::bytes::extend(&mut link, prev.signature_hash.as_slice());
                    assert(link@ =~= prev.signature_hash@);
                    anchor = Some(link);
                },
                None => {},
            }
        }
        let granted: u64 = if tolerance_ms <= MAX_TOLERANCE_MS {
            tolerance_ms
        } else {
            MAX_TOLERANCE_MS
        };
        Ok(PromotionPlan { anchor, tolerance_ms: granted })
    }

    /// How the check of an envelope is planned.
    pub open spec fn promotion_is_planned(
        &self,
        envelope: Envelope,
        tolerance_ms: u64,
        plan: Result<PromotionPlan, GuardianError>,
    ) -> bool {
        match plan {
            Err(e) => self.revoked(envelope.recording_id@) && e.is_revoked(envelope.recording_id@),
            Ok(p) => {
                &&& !self.revoked(envelope.recording_id@)
                &&& p.tolerance_ms == if tolerance_ms <= MAX_TOLERANCE_MS {
                    tolerance_ms
                } else {
                    MAX_TOLERANCE_MS
                }
                &&& match self.predecessor(envelope) {
                    Some(prev) => p.anchor matches Some(a) && a@ == prev.signature_hash@,
                    None => p.anchor is None,
                }
            },
        }
    }

    /// The shard right before an envelope, where it is at hand. The first shard
    /// of a recording has none.
    pub open spec fn predecessor(&self, envelope: Envelope) -> Option<Envelope> {
        if envelope.sequence_id > 1 && self.contexts@.dom().contains(envelope.recording_id@) {
            shard_with(
                self.contexts@[envelope.recording_id@]@,
                (envelope.sequence_id - 1) as u32,
            )
        } else {
            None
        }
    }

    /// Every envelope of a recording that is not revoked is checked, with the tolerance
    /// that was asked for up to half a minute, and against the link of the shard before
    /// it wherever that shard is on the workbench.
    pub proof fn law_promotions_are_checked_against_the_shard_before(
        &self,
        envelope: Envelope,
        tolerance_ms: u64,
        plan: Result<PromotionPlan, GuardianError>,
        i: int,
    )
        requires
            self.promotion_is_planned(envelope, tolerance_ms, plan),
        ensures
            plan is Err <==> self.revoked_recordings@.dom().contains(envelope.recording_id@),
            plan matches Ok(p) ==> {
                &&& p.tolerance_ms == vstd::math::min(tolerance_ms as int, 30000)
                &&& envelope.sequence_id > 1 && self.contexts@.dom().contains(
                    envelope.recording_id@,
                ) && 0 <= i < self.contexts@[envelope.recording_id@]@.len()
                    && self.contexts@[envelope.recording_id@]@[i].sequence_id + 1
                    == envelope.sequence_id && (forall|j: int|
                    i < j < self.contexts@[envelope.recording_id@]@.len() ==> (
                    #[trigger] self.contexts@[envelope.recording_id@]@[j]).sequence_id + 1
                        != envelope.sequence_id) ==> p.anchor is Some && (p.anchor->0)@
                    == self.contexts@[envelope.recording_id@]@[i].signature_hash@
                &&& p.anchor is Some ==> envelope.sequence_id > 1
            },
    {
        if envelope.sequence_id > 1 && self.contexts@.dom().contains(envelope.recording_id@) {
            let shards = self.contexts@[envelope.recording_id@]@;
            if 0 <= i < shards.len() && shards[i].sequence_id + 1 == envelope.sequence_id && (
            forall|j: int|
                i < j < shards.len() ==> (#[trigger] shards[j]).sequence_id + 1
                    != envelope.sequence_id) {
                assert forall|j: int| i < j < shards.len() implies (
                #[trigger] shards[j]).sequence_id != (envelope.sequence_id - 1) as u32 by {
                    assert(shards[j].sequence_id + 1 != envelope.sequence_id);
                }
                law_a_present_shard_is_found(shards, (envelope.sequence_id - 1) as u32, i);
            }
        }
    }

    /// The shards of a recording that are on the workbench.
    pub open spec fn shards_of(&self, recording_id: Seq<char>) -> Seq<Envelope> {
        if self.contexts@.dom().contains(recording_id) {
            self.contexts@[recording_id]@
        } else {
            Seq::empty()
        }
    }

    /// What a promotion does to the workbench: the shard joins those of its
    /// recording, in place of any of its sequence, unless it finished the
    /// recording, which then leaves the workbench.
    pub open spec fn promoted_effect(
        before: Self,
        after: Self,
        envelope: Envelope,
        finished: bool,
    ) -> bool {
        let id = envelope.recording_id@;
        &&& after == (Guardian { contexts: after.contexts, ..before })
        &&& if finished {
            after.contexts@ == before.contexts@.remove(id)
        } else {
            &&& after.contexts@.dom() == before.contexts@.dom().insert(id)
            &&& after.contexts@[id]@ == without_sequence(
                before.shards_of(id),
                envelope.sequence_id,
            ).push(envelope)
            &&& forall|other: Seq<char>|
                other != id && before.contexts@.dom().contains(other)
                    ==> #[trigger] after.contexts@[other] == before.contexts@[other]
        }
    }

    /// A promoted shard is on the workbench under its sequence, and every shard of
    /// another sequence or recording stays; with the shard that finished it a recording
    /// leaves the workbench, and no other does.
    pub proof fn law_promoted_shards_join_their_recording(
        before: Self,
        after: Self,
        envelope: Envelope,
        finished: bool,
        shard: Envelope,
        other: Seq<char>,
    )
        requires
            Self::promoted_effect(before, after, envelope, finished),
            before.contexts@.dom().contains(envelope.recording_id@),
        ensures
            finished ==> !after.contexts@.dom().contains(envelope.recording_id@),
            !finished ==> {
                let shards = after.contexts@[envelope.recording_id@]@;
                &&& after.contexts@.dom().contains(envelope.recording_id@)
                &&& shards.last() == envelope
                &&& shard.sequence_id != envelope.sequence_id ==> (shards.contains(shard)
                    <==> before.contexts@[envelope.recording_id@]@.contains(shard))
                &&& shard.sequence_id == envelope.sequence_id && shards.contains(shard) ==> shard
                    == envelope
            },
            other != envelope.recording_id@ ==> (after.contexts@.dom().contains(other)
                == before.contexts@.dom().contains(other)),
            other != envelope.recording_id@ && before.contexts@.dom().contains(other)
                ==> after.contexts@[other] == before.contexts@[other],
            after.recording_logs == before.recording_logs,
            after.ledger == before.ledger,
    {
        if !finished {
            let s = envelope.sequence_id;
            let held = before.contexts@[envelope.recording_id@]@;
            let keep = |e: Envelope| e.sequence_id != s;
            let others = without_sequence(held, s);
            let shards = after.contexts@[envelope.recording_id@]@;
            law_only_its_sequence_is_dropped(held, s);
            assert(others == held.filter(keep));
            if shards.contains(shard) {
                let k = shards.index_of(shard);
                if k < others.len() {
                    assert(others[k] == shard);
                    held.lemma_filter_pred(keep, k);
                    held.lemma_filter_contains_rev(keep, shard);
                }
            }
            if held.contains(shard) && shard.sequence_id != s {
                held.lemma_filter_contains(keep, held.index_of(shard));
                let k = others.index_of(shard);
                assert(shards[k] == shard);
            }
        }
    }

    /// Notes that an envelope was promoted, and whether it finished its recording.
    pub fn note_promoted(&mut self, envelope: Envelope, finished: bool)
        requires
            old(self).wf(),
        ensures
            final(self).wf(),
            Self::promoted_effect(*old(self), *final(self), envelope, finished),
    {
        if finished {
            self.note_finalized(&envelope.recording_id);
            return;
        }
        let ghost before = self.contexts@;
        let id = envelope.recording_id.clone();
        let held = match self.contexts.remove(&id) {
            Some(shards) => shards,
            None => Vec::new(),
        };
        assert(held@ =~= old(self).shards_of(id@));
        let mut shards = drop_sequence(held, envelope.sequence_id);
        shards.push(envelope);
        self.contexts.insert(id, shards);
        assert(self.contexts@.dom() =~= before.dom().insert(id@));
    }

    /// Notes that a recording was put together, or given up as stale: it leaves the
    /// workbench.
    pub fn note_finalized(&mut self, recording_id: &String)
        requires
            old(self).wf(),
        ensures
            final(self).wf(),
            *final(self) == (Guardian { contexts: final(self).contexts, ..*old(self) }),
            final(self).contexts@ == old(self).contexts@.remove(recording_id@),
    {
        self.contexts.remove(recording_id);
    }

    /// Envelopes form a chain: once a shard was promoted, the one of the next
    /// number is checked against its hash.
    pub proof fn law_next_shard_is_anchored(
        before: Guardian,
        after: Guardian,
        envelope: Envelope,
        next: Envelope,
        tolerance_ms: u64,
        plan: Result<PromotionPlan, GuardianError>,
    )
        requires
            Self::promoted_effect(before, after, envelope, false),
            envelope.sequence_id >= 1,
            next.recording_id@ == envelope.recording_id@,
            next.sequence_id == envelope.sequence_id + 1,
            after.promotion_is_planned(next, tolerance_ms, plan),
            !after.revoked(next.recording_id@),
        ensures
            after.predecessor(next) == Some(envelope),
            plan matches Ok(p) && p.anchor matches Some(a) && a@ == envelope.signature_hash@,
    {
        let shards = after.contexts@[envelope.recording_id@]@;
        assert(shards.last() == envelope);
        assert(shard_with(shards, envelope.sequence_id) == Some(envelope));
    }

    /// First step of a revocation: the key is destroyed, before anything else
    /// changes. Where there was one, the keyring is to be stored at once; if
    /// that fails, the revocation stops here.
    pub fn begin_revocation(&mut self, recording_id: &String) -> (persist_keyring: bool)
        requires
            old(self).wf(),
        ensures
            final(self).wf(),
            Self::key_removed(*old(self), *final(self), recording_id@),
            persist_keyring == old(self).content_keyring@.dom().contains(recording_id@),
    {
        self.destroy_content_key(recording_id)
    }

    /// `cleanup` is what a revocation leaves to be done.
    pub open spec fn is_cleanup(
        before: Self,
        recording_id: Seq<char>,
        cleanup: RevocationCleanup,
    ) -> bool {
        &&& match cleanup.log_path {
            Some(p) => before.recording_logs@.dom().contains(recording_id) && p
                == before.recording_logs@[recording_id].path,
            None => !before.recording_logs@.dom().contains(recording_id),
        }
        &&& cleanup.persist_metadata == before.recording_metadata.map@.dom().contains(recording_id)
    }

    /// Nothing of a revoked recording is left in memory, its log is named to be
    /// destroyed, and nothing of any other recording is lost.
    pub proof fn law_revocation_leaves_no_trace(
        before: Self,
        after: Self,
        recording_id: Seq<char>,
        cleanup: RevocationCleanup,
        other: Seq<char>,
    )
        requires
            Self::traces_removed(before, after, recording_id),
            Self::is_cleanup(before, recording_id, cleanup),
        ensures
            after.revoked_recordings@.dom().contains(recording_id),
            !after.recording_logs@.dom().contains(recording_id),
            !after.contexts@.dom().contains(recording_id),
            !after.recording_metadata.map@.dom().contains(recording_id),
            cleanup.log_path is Some <==> before.recording_logs@.dom().contains(recording_id),
            cleanup.log_path is Some ==> cleanup.log_path->0
                == before.recording_logs@[recording_id].path,
            cleanup.persist_metadata <==> before.recording_metadata.map@.dom().contains(
                recording_id,
            ),
            other != recording_id ==> {
                &&& after.revoked_recordings@.dom().contains(other)
                    == before.revoked_recordings@.dom().contains(other)
                &&& before.recording_logs@.dom().contains(other)
                    ==> after.recording_logs@.dom().contains(other) && after.recording_logs@[other]
                    == before.recording_logs@[other]
                &&& before.contexts@.dom().contains(other) ==> after.contexts@.dom().contains(other)
                    && after.contexts@[other] == before.contexts@[other]
                &&& before.recording_metadata.map@.dom().contains(other)
                    ==> after.recording_metadata.map@.dom().contains(other)
                    && after.recording_metadata.map@[other] == before.recording_metadata.map@[other]
            },
            after.content_keyring == before.content_keyring,
            after.ledger == before.ledger,
    {
    }

    /// Second step of a revocation: every trace of the recording is dropped and
    /// the recording is marked, so that no shard of it is taken again.
    pub fn finish_revocation(&mut self, recording_id: &String) -> (cleanup: RevocationCleanup)
        requires
            old(self).wf(),
        ensures
            final(self).wf(),
            Self::traces_removed(*old(self), *final(self), recording_id@),
            Self::is_cleanup(*old(self), recording_id@, cleanup),
    {
        self.contexts.remove(recording_id);
        let log_path = match self.recording_logs.remove(recording_id) {
            Some(log) => Some(log.path),
            None => None,
        };
        self.revoked_recordings.insert(recording_id.clone(), ());
        let persist_metadata = match self.recording_metadata.remove(recording_id) {
            Some(_) => true,
            None => false,
        };
        RevocationCleanup { log_path, persist_metadata }
    }

    /// The recording is revoked and nothing of it is left in the vault.
    pub open spec fn forgotten(&self, recording_id: Seq<char>) -> bool {
        &&& self.revoked(recording_id)
        &&& !self.holds(recording_id)
        &&& !self.content_keyring@.dom().contains(recording_id)
        &&& !self.recording_metadata.map@.dom().contains(recording_id)
    }

    /// A revocation forgets the recording and leaves every other recording's
    /// log, shards, key, policy and standing as they were. The key goes first:
    /// a crash between the two steps leaves ciphertext that no stored key opens.
    pub proof fn law_revocation_forgets(
        before: Guardian,
        keyless: Guardian,
        after: Guardian,
        recording_id: Seq<char>,
        other: Seq<char>,
    )
        requires
            Self::key_removed(before, keyless, recording_id),
            Self::traces_removed(keyless, after, recording_id),
        ensures
            forall|derived: [u8; 32]| #[trigger] keyless.key_for(recording_id, derived) == derived,
            after.forgotten(recording_id),
            !after.listed(recording_id),
            other != recording_id ==> {
                &&& after.revoked(other) == before.revoked(other)
                &&& after.holds(other) == before.holds(other)
                &&& after.listed(other) == before.listed(other)
                &&& after.recording_metadata.publishable(other)
                    == before.recording_metadata.publishable(other)
                &&& forall|derived: [u8; 32]| #[trigger]
                    after.key_for(other, derived) == before.key_for(other, derived)
            },
    {
    }
}

/// What a failed promotion is reported as: a break in the chain by that name,
/// anything else as a failed verification.
pub fn promotion_error(error: &ShardError, words: &String) -> (reported: GuardianError)
    ensures
        match *error {
            ShardError::InvalidConfiguration(m) => if mentions_causality_break(m@) {
                reported.is_chain_violation(m@)
            } else {
                reported.is_verification_failed(words@)
            },
            _ => reported.is_verification_failed(words@),
        },
{
    match error {
        ShardError::InvalidConfiguration(m) => if contains_causality_break(m.as_str()) {
            GuardianError::ChainIntegrityViolation(m.clone())
        } else {
            GuardianError::VerificationFailed(words.clone())
        },
        _ => GuardianError::VerificationFailed(words.clone()),
    }
}

/// The words that mark a break in the chain of envelopes.
pub open spec fn mentions_causality_break(m: Seq<char>) -> bool {
    exists|i: int|
        0 <= i <= m.len() - "Causality Break"@.len() && #[trigger] m.subrange(
            i,
            i + "Causality Break"@.len(),
        ) == "Causality Break"@
}

fn contains_causality_break(m: &str) -> (b: bool)
    ensures
        b == mentions_causality_break(m@),
{
    text::contains(m, "Causality Break")
}

} // verus!
