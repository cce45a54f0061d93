//! Recovery: fetching back, from the mesh, everything that a restored identity
//! ever published.
//!
//! The manifest is fetched first. It names the recordings; those that are not
//! on disk yet are then asked for until they arrive or the time is up.
use vstd::prelude::*;
use crate::text;

verus! {

/// How long the manifest may take to arrive.
pub const MANIFEST_STAGE_TIMEOUT_MS: u64 = 60000;

/// How long the recordings may take to arrive.
pub const CHILDREN_STAGE_TIMEOUT_MS: u64 = 600000;

/// The pause between two looks at what is on disk.
pub const POLL_INTERVAL_MS: u64 = 1000;

/// Providers are looked for again every so many polls.
pub const REFIND_EVERY_TICKS: u32 = 10;

/// Capacity of the channel that provider results arrive on.
pub const PROVIDERS_CHANNEL_BUFFER: usize = 100;

/// The stage that a recovery is in.
#[derive(Debug, Clone, Copy, PartialEq, Eq, Structural)]
pub enum RecoveryState {
    FetchingManifest,
    WalkingManifest,
    FetchingChildren,
    Complete,
    NoManifestFound,
    Cancelled,
}

/// The progress that is shown to the user.
#[derive(Debug, Clone, Copy, PartialEq, Eq, Structural)]
pub struct RecoveryStatus {
    pub state: RecoveryState,
    pub total: u32,
    pub recovered: u32,
    pub failed: u32,
}

/// What the driver of a recovery is to do next.
#[derive(Debug)]
pub enum RecoveryAction {
    /// List the recordings on disk, then report with `manifest_listed` or
    /// `children_listed`.
    List,
    /// Wait [`POLL_INTERVAL_MS`], then report with `manifest_slept` or
    /// `children_slept`.
    Sleep,
    /// Read the manifest, then report with `manifest_read`.
    ReadManifest,
    /// Look for providers of these recordings, then poll again.
    Find(Vec<String>),
    /// Poll again.
    Poll,
    /// The recovery is over.
    Stop,
}

/// A recovery under way.
pub struct Recovery {
    pub status: RecoveryStatus,
    pub manifest_id: String,
    /// The recordings that the manifest names, in the order of their names.
    pub expected: Vec<String>,
    /// Those that are not on disk yet.
    pub unrecovered: Vec<String>,
    /// Polls made in the current stage.
    pub tick: u32,
}

/// A count in thirty-two bits, at most the largest there is.
pub open spec fn count32(n: int) -> u32 {
    if n <= u32::MAX {
        n as u32
    } else {
        u32::MAX
    }
}

fn saturate32(n: usize) -> (c: u32)
    ensures
        c == count32(n as int),
{
    if n <= u32::MAX as usize {
        n as u32
    } else {
        u32::MAX
    }
}

/// `names` are the recordings that the shards of a manifest name.
pub open spec fn are_catalogued(shards: Seq<Option<String>>, names: Seq<Seq<char>>) -> bool {
    names == shards.filter_map(
        |shard: Option<String>|
            match shard {
                Some(s) => Some(s@),
                None => None,
            },
    )
}

/// A recording is catalogued exactly where a shard of the manifest names it.
pub proof fn law_every_entry_is_catalogued(
    shards: Seq<Option<String>>,
    names: Seq<Seq<char>>,
    name: Seq<char>,
)
    requires
        are_catalogued(shards, names),
    ensures
        names.contains(name) <==> exists|i: int|
            0 <= i < shards.len() && (#[trigger] shards[i]) is Some && shards[i]->0@ == name,
        names.len() <= shards.len(),
        (forall|i: int| 0 <= i < shards.len() ==> (#[trigger] shards[i]) is Some) ==> names.len()
            == shards.len(),
    decreases shards.len(),
{
    let named = |shard: Option<String>|
        match shard {
            Some(s) => Some(s@),
            None => None,
        };
    if shards.len() > 0 {
        let front = shards.drop_last();
        let before = front.filter_map(named);
        law_every_entry_is_catalogued(front, before, name);
        shards.lemma_filter_map_take_succ(named, shards.len() - 1);
        assert(shards.take(shards.len() - 1) =~= front);
        assert(shards.take(shards.len() as int) =~= shards);
        let last = shards.last();
        match last {
            Some(s) => {
                assert(names == before + seq![s@]);
                if s@ == name {
                    assert(names[before.len() as int] == name);
                    assert(shards[shards.len() - 1] is Some);
                }
            },
            None => {
                assert(names =~= before);
            },
        }
        if names.contains(name) && !(last is Some && last->0@ == name) {
            let k = names.index_of(name);
            assert(k < before.len());
            assert(before[k] == name);
            let i = choose|i: int|
                0 <= i < front.len() && (#[trigger] front[i]) is Some && front[i]->0@ == name;
            assert(shards[i] == front[i]);
        }
        if exists|i: int|
            0 <= i < shards.len() && (#[trigger] shards[i]) is Some && shards[i]->0@ == name {
            let i = choose|i: int|
                0 <= i < shards.len() && (#[trigger] shards[i]) is Some && shards[i]->0@ == name;
            if i < shards.len() - 1 {
                assert(front[i] == shards[i]);
                assert(before.contains(name));
                let k = before.index_of(name);
                assert(names[k] == name);
            }
        }
        if forall|i: int| 0 <= i < shards.len() ==> (#[trigger] shards[i]) is Some {
            assert forall|i: int| 0 <= i < front.len() implies (#[trigger] front[i]) is Some by {
                assert(shards[i] is Some);
            }
            assert(shards[shards.len() - 1] is Some);
        }
    } else {
        assert(shards.filter_map(named) =~= Seq::<Seq<char>>::empty());
    }
}

/// The recordings that a manifest's shards name. A shard that is no catalogue
/// entry names none.
pub fn catalogued(shards: &Vec<Option<String>>) -> (names: Vec<String>)
    ensures
        are_catalogued(shards@, text::views(names@)),
{
    let ghost named = |shard: Option<String>|
        match shard {
            Some(s) => Some(s@),
            None => None,
        };
    let mut names: Vec<String> = Vec::new();
    let mut i: usize = 0;
    assert(text::views(names@) =~= shards@.take(0).filter_map(named));
    while i < shards.len()
        invariant
            i <= shards@.len(),
            named == (|shard: Option<String>|
                match shard {
                    Some(s) => Some(s@),
                    None => None,
                }),
            text::views(names@) == shards@.take(i as int).filter_map(named),
        decreases shards@.len() - i,
    {
        let ghost before = text::views(names@);
        proof {
            shards@.lemma_filter_map_take_succ(named, i as int);
        }
        match &shards[i] {
            Some(s) => {
                names.push(s.clone());
                assert(text::views(names@) =~= before + seq![s@]);
            },
            None => {
                assert(before + Seq::<Seq<char>>::empty() =~= before);
            },
        }
        i += 1;
    }
    assert(shards@.take(i as int) =~= shards@);
    names
}

impl Recovery {
    /// Names occur once, and what is missing is among what is expected.
    pub open spec fn wf(&self) -> bool {
        &&& text::ascending(text::views(self.expected@))
        &&& text::ascending(text::views(self.unrecovered@))
        &&& self.unrecovered@.len() <= self.expected@.len()
        &&& forall|x: Seq<char>| #[trigger]
            text::views(self.unrecovered@).contains(x) ==> text::views(self.expected@).contains(x)
    }

    /// The progress shown agrees with what is known to be missing.
    pub open spec fn progress_is_shown(&self) -> bool {
        &&& self.status.total == count32(self.expected@.len() as int)
        &&& self.status.recovered == count32(self.expected@.len() - self.unrecovered@.len())
    }

    /// Nothing but the state changed.
    pub open spec fn only_state(before: Self, after: Self, state: RecoveryState) -> bool {
        &&& after.manifest_id == before.manifest_id
        &&& after.expected == before.expected
        &&& after.unrecovered == before.unrecovered
        &&& after.tick == before.tick
        &&& after.status == (RecoveryStatus { state, ..before.status })
    }

    /// Starts a recovery by looking for providers of the manifest.
    pub fn start(manifest_id: String) -> (started: (Self, RecoveryAction))
        ensures
            started.0.wf(),
            started.0.manifest_id == manifest_id,
            started.0.expected@ == Seq::<String>::empty(),
            started.0.unrecovered@ == Seq::<String>::empty(),
            started.0.tick == 0,
            started.0.status == (RecoveryStatus {
                state: RecoveryState::FetchingManifest,
                total: 0,
                recovered: 0,
                failed: 0,
            }),
            started.1 matches RecoveryAction::Find(ids) && text::views(ids@) == seq![manifest_id@],
    {
        let mut ids: Vec<String> = Vec::new();
        ids.push(manifest_id.clone());
        assert(text::views(ids@) =~= seq![manifest_id@]);
        (
            Recovery {
                status: RecoveryStatus {
                    state: RecoveryState::FetchingManifest,
                    total: 0,
                    recovered: 0,
                    failed: 0,
                },
                manifest_id,
                expected: Vec::new(),
                unrecovered: Vec::new(),
                tick: 0,
            },
            RecoveryAction::Find(ids),
        )
    }

    /// What a poll for the manifest does.
    pub open spec fn manifest_polled(
        before: Self,
        after: Self,
        cancelled: bool,
        elapsed_ms: u64,
        action: RecoveryAction,
    ) -> bool {
        if cancelled {
            &&& Self::only_state(before, after, RecoveryState::Cancelled)
            &&& action == RecoveryAction::Stop
        } else if elapsed_ms >= MANIFEST_STAGE_TIMEOUT_MS {
            &&& Self::only_state(before, after, RecoveryState::NoManifestFound)
            &&& action == RecoveryAction::Stop
        } else {
            after == before && action == RecoveryAction::List
        }
    }

    /// The manifest is waited for until a minute is over or the user cancels, and
    /// not a moment longer.
    pub proof fn law_the_manifest_has_a_minute(
        before: Self,
        after: Self,
        cancelled: bool,
        elapsed_ms: u64,
        action: RecoveryAction,
    )
        requires
            Self::manifest_polled(before, after, cancelled, elapsed_ms, action),
        ensures
            action is List <==> !cancelled && elapsed_ms < 60000,
            action is Stop <==> cancelled || elapsed_ms >= 60000,
            action is List ==> after == before,
            cancelled ==> after.status.state == RecoveryState::Cancelled,
            !cancelled && elapsed_ms >= 60000 ==> after.status.state
                == RecoveryState::NoManifestFound,
            after.expected == before.expected,
            after.unrecovered == before.unrecovered,
            after.status.total == before.status.total,
            after.status.recovered == before.status.recovered,
            after.status.failed == before.status.failed,
    {
    }

    /// Begins a poll for the manifest: a cancellation wins over the time limit,
    /// and the time limit over another look.
    pub fn manifest_poll(&mut self, cancelled: bool, elapsed_ms: u64) -> (action: RecoveryAction)
        requires
            old(self).wf(),
        ensures
            final(self).wf(),
            Self::manifest_polled(*old(self), *final(self), cancelled, elapsed_ms, action),
    {
        if cancelled {
            self.status.state = RecoveryState::Cancelled;
            RecoveryAction::Stop
        } else if elapsed_ms >= MANIFEST_STAGE_TIMEOUT_MS {
            self.status.state = RecoveryState::NoManifestFound;
            RecoveryAction::Stop
        } else {
            RecoveryAction::List
        }
    }

    /// What a look at the disk for the manifest does.
    pub open spec fn manifest_looked_for(
        before: Self,
        after: Self,
        on_disk: Seq<Seq<char>>,
        action: RecoveryAction,
    ) -> bool {
        if on_disk.contains(before.manifest_id@) {
            &&& Self::only_state(before, after, RecoveryState::WalkingManifest)
            &&& action == RecoveryAction::ReadManifest
        } else {
            after == before && action == RecoveryAction::Sleep
        }
    }

    /// The manifest is read as soon as it is anywhere on the disk, and not before.
    pub proof fn law_an_arrived_manifest_is_read(
        before: Self,
        after: Self,
        on_disk: Seq<Seq<char>>,
        action: RecoveryAction,
        i: int,
    )
        requires
            Self::manifest_looked_for(before, after, on_disk, action),
            0 <= i < on_disk.len(),
        ensures
            on_disk[i] == before.manifest_id@ ==> action is ReadManifest && after.status.state
                == RecoveryState::WalkingManifest,
            (forall|j: int| 0 <= j < on_disk.len() ==> (#[trigger] on_disk[j]) != before.manifest_id@)
                ==> action is Sleep && after == before,
            after.manifest_id == before.manifest_id,
            after.expected == before.expected,
            after.unrecovered == before.unrecovered,
    {
    }

    /// Goes on with what was found on disk while waiting for the manifest.
    pub fn manifest_listed(&mut self, on_disk: &Vec<String>) -> (action: RecoveryAction)
        requires
            old(self).wf(),
        ensures
            final(self).wf(),
            Self::manifest_looked_for(*old(self), *final(self), text::views(on_disk@), action),
    {
        if text::is_listed(on_disk, &self.manifest_id) {
            self.status.state = RecoveryState::WalkingManifest;
            RecoveryAction::ReadManifest
        } else {
            RecoveryAction::Sleep
        }
    }

    /// The tick after one more pause.
    pub open spec fn next_tick(tick: u32) -> u32 {
        if tick < u32::MAX {
            (tick + 1) as u32
        } else {
            u32::MAX
        }
    }

    /// What a pause in the wait for the manifest does.
    pub open spec fn manifest_paused(before: Self, after: Self, action: RecoveryAction) -> bool {
        &&& after == (Recovery { tick: Self::next_tick(before.tick), ..before })
        &&& if after.tick % REFIND_EVERY_TICKS == 0 {
            action matches RecoveryAction::Find(ids) && text::views(ids@) == seq![
                before.manifest_id@,
            ]
        } else {
            action == RecoveryAction::Poll
        }
    }

    /// Pauses are counted one by one, and with every tenth the manifest is looked for
    /// again.
    pub proof fn law_the_manifest_is_looked_for_again(
        before: Self,
        after: Self,
        action: RecoveryAction,
    )
        requires
            before.tick < u32::MAX,
            Self::manifest_paused(before, after, action),
        ensures
            after.tick == before.tick + 1,
            (before.tick + 1) % 10 == 0 ==> (action matches RecoveryAction::Find(ids) && ids@.len()
                == 1 && ids@[0]@ == before.manifest_id@),
            (before.tick + 1) % 10 != 0 ==> action is Poll,
            after.status == before.status,
    {
        match action {
            RecoveryAction::Find(ids) => {
                assert(text::views(ids@).len() == ids@.len());
                if ids@.len() == 1 {
                    assert(text::views(ids@)[0] == ids@[0]@);
                }
            },
            _ => {},
        }
    }

    /// Goes on after a pause: every tenth time providers are looked for again.
    pub fn manifest_slept(&mut self) -> (action: RecoveryAction)
        requires
            old(self).wf(),
        ensures
            final(self).wf(),
            Self::manifest_paused(*old(self), *final(self), action),
    {
        self.tick = self.tick.saturating_add(1);
        if self.tick % REFIND_EVERY_TICKS == 0 {
            let mut ids: Vec<String> = Vec::new();
            ids.push(self.manifest_id.clone());
            assert(text::views(ids@) =~= seq![self.manifest_id@]);
            RecoveryAction::Find(ids)
        } else {
            RecoveryAction::Poll
        }
    }

    /// What the contents of the manifest do.
    pub open spec fn manifest_taken(
        before: Self,
        after: Self,
        children: Option<Vec<String>>,
        action: RecoveryAction,
    ) -> bool {
        match children {
            None => {
                &&& Self::only_state(before, after, RecoveryState::NoManifestFound)
                &&& action == RecoveryAction::Stop
            },
            Some(names) => {
                &&& after.manifest_id == before.manifest_id
                &&& text::views(after.expected@).to_set() == text::views(names@).to_set()
                &&& after.unrecovered@ == Seq::<String>::empty()
                &&& after.tick == 0
                &&& after.status == (RecoveryStatus {
                    state: RecoveryState::FetchingChildren,
                    total: count32(after.expected@.len() as int),
                    recovered: 0,
                    failed: 0,
                })
                &&& action == RecoveryAction::List
            },
        }
    }

    /// Every recording that the manifest names is expected, and counted once however
    /// often it is named; nothing else is.
    pub proof fn law_every_named_recording_is_expected(
        before: Self,
        after: Self,
        names: Vec<String>,
        action: RecoveryAction,
        id: Seq<char>,
    )
        requires
            after.wf(),
            Self::manifest_taken(before, after, Some(names), action),
        ensures
            text::views(after.expected@).contains(id) <==> text::views(names@).contains(id),
            text::views(after.expected@).no_duplicates(),
            after.expected@.len() <= u32::MAX ==> after.status.total == after.expected@.len(),
            after.status.recovered == 0,
            after.status.failed == 0,
            after.status.state == RecoveryState::FetchingChildren,
            action is List,
    {
        let expected = text::views(after.expected@);
        let all = text::views(names@);
        assert(expected.to_set().contains(id) <==> expected.contains(id));
        assert(all.to_set().contains(id) <==> all.contains(id));
        assert forall|i: int, j: int|
            0 <= i < expected.len() && 0 <= j < expected.len() && i != j implies expected[i]
            != expected[j] by {
            text::lemma_text_order(expected[i], expected[j]);
            if i < j {
                assert(text::text_before(expected[i], expected[j]));
            } else {
                assert(text::text_before(expected[j], expected[i]));
            }
        }
    }

    /// Takes the recordings that the manifest names. Without an answer there is
    /// no manifest to go by.
    pub fn manifest_read(&mut self, children: Option<Vec<String>>) -> (action: RecoveryAction)
        requires
            old(self).wf(),
        ensures
            final(self).wf(),
            Self::manifest_taken(*old(self), *final(self), children, action),
    {
        match children {
            None => {
                self.status.state = RecoveryState::NoManifestFound;
                RecoveryAction::Stop
            },
            Some(names) => {
                let mut expected: Vec<String> = Vec::new();
                let ghost all = text::views(names@);
                let mut i: usize = 0;
                assert(text::views(expected@).to_set() =~= all.subrange(0, 0).to_set());
                while i < names.len()
                    invariant
                        i <= names@.len(),
                        all == text::views(names@),
                        text::ascending(text::views(expected@)),
                        text::views(expected@).to_set() == all.subrange(0, i as int).to_set(),
                    decreases names@.len() - i,
                {
                    text::insert_name(&mut expected, &names[i]);
                    proof {
                        let seen = all.subrange(0, i as int);
                        seen.lemma_push_to_set_commute(all[i as int]);
                        assert(all.subrange(0, i + 1) =~= seen.push(all[i as int]));
                    }
                    i += 1;
                }
                assert(all.subrange(0, i as int) =~= all);
                self.status = RecoveryStatus {
                    state: RecoveryState::FetchingChildren,
                    total: saturate32(expected.len()),
                    recovered: 0,
                    failed: 0,
                };
                self.expected = expected;
                self.unrecovered = Vec::new();
                self.tick = 0;
                RecoveryAction::List
            },
        }
    }

    /// The names among `list` that are not on disk.
    pub open spec fn missing(list: Seq<Seq<char>>, on_disk: Seq<Seq<char>>) -> Seq<Seq<char>> {
        list.filter(|x: Seq<char>| !on_disk.contains(x))
    }

    proof fn lemma_missing(list: Seq<Seq<char>>, on_disk: Seq<Seq<char>>)
        requires
            text::ascending(list),
        ensures
            text::ascending(Self::missing(list, on_disk)),
            Self::missing(list, on_disk).len() <= list.len(),
            forall|x: Seq<char>| #[trigger]
                Self::missing(list, on_disk).contains(x) <==> list.contains(x)
                    && !on_disk.contains(x),
        decreases list.len(),
    {
        let keep = |x: Seq<char>| !on_disk.contains(x);
        list.lemma_filter_len(keep);
        assert forall|x: Seq<char>| #[trigger] Self::missing(list, on_disk).contains(x) <==> (
        list.contains(x) && !on_disk.contains(x)) by {
            if Self::missing(list, on_disk).contains(x) {
                let i = Self::missing(list, on_disk).index_of(x);
                list.lemma_filter_pred(keep, i);
                list.lemma_filter_contains_rev(keep, x);
            }
            if list.contains(x) && !on_disk.contains(x) {
                let i = list.index_of(x);
                list.lemma_filter_contains(keep, i);
            }
        }
        if list.len() > 0 {
            let front = list.drop_last();
            Self::lemma_missing(front, on_disk);
            assert(list =~= front.push(list.last()));
            front.lemma_filter_push(list.last(), keep);
            let kept = front.filter(keep);
            if keep(list.last()) {
                let longer = kept.push(list.last());
                assert forall|i: int, j: int| 0 <= i < j < longer.len() implies text::text_before(
                    #[trigger] longer[i],
                    #[trigger] longer[j],
                ) by {
                    if j == kept.len() {
                        assert(Self::missing(front, on_disk).contains(kept[i]));
                        let k = front.index_of(kept[i]);
                        assert(text::text_before(list[k], list[list.len() - 1]));
                    } else {
                        assert(text::text_before(kept[i], kept[j]));
                    }
                }
            }
        } else {
            assert(list.filter(keep) =~= Seq::<Seq<char>>::empty());
        }
    }

    /// What both looks at the disk have in common: those of `looked_for` that are not
    /// there are missing.
    pub open spec fn looked(
        before: Self,
        after: Self,
        looked_for: Seq<Seq<char>>,
        on_disk: Seq<Seq<char>>,
    ) -> bool {
        &&& after.progress_is_shown()
        &&& after.manifest_id == before.manifest_id
        &&& after.expected == before.expected
        &&& after.tick == before.tick
        &&& after.status == (RecoveryStatus {
            recovered: after.status.recovered,
            ..before.status
        })
        &&& text::views(after.unrecovered@) == Self::missing(looked_for, on_disk)
    }

    /// What the first look at the disk does.
    pub open spec fn looked_first(
        before: Self,
        after: Self,
        on_disk: Seq<Seq<char>>,
        action: RecoveryAction,
    ) -> bool {
        &&& Self::looked(before, after, text::views(before.expected@), on_disk)
        &&& action matches RecoveryAction::Find(ids) && text::views(ids@) == text::views(
            after.unrecovered@,
        )
    }

    /// What a later look at the disk does.
    pub open spec fn looked_again(
        before: Self,
        after: Self,
        on_disk: Seq<Seq<char>>,
        action: RecoveryAction,
    ) -> bool {
        &&& Self::looked(before, after, text::views(before.unrecovered@), on_disk)
        &&& if before.tick % REFIND_EVERY_TICKS == 0 {
            action matches RecoveryAction::Find(ids) && text::views(ids@) == text::views(
                after.unrecovered@,
            )
        } else {
            action == RecoveryAction::Poll
        }
    }

    /// After the first look a recording is missing exactly when it is expected and
    /// not on disk; providers of all that are missing are looked for at once, and the
    /// others count as recovered.
    pub proof fn law_what_is_missing_is_asked_for(
        before: Self,
        after: Self,
        on_disk: Seq<Seq<char>>,
        action: RecoveryAction,
        id: Seq<char>,
    )
        requires
            before.wf(),
            Self::looked_first(before, after, on_disk, action),
        ensures
            text::views(after.unrecovered@).contains(id) <==> text::views(
                before.expected@,
            ).contains(id) && !on_disk.contains(id),
            action matches RecoveryAction::Find(ids) && (text::views(ids@).contains(id)
                <==> text::views(before.expected@).contains(id) && !on_disk.contains(id)),
            after.expected@.len() <= u32::MAX && after.unrecovered@.len() <= after.expected@.len()
                ==> after.status.recovered + after.unrecovered@.len() == after.expected@.len(),
            after.expected == before.expected,
    {
        Self::lemma_missing(text::views(before.expected@), on_disk);
    }

    /// A later look takes what has arrived off the list and nothing else, and with
    /// every tenth poll what is still missing is asked for again.
    pub proof fn law_what_has_arrived_is_counted(
        before: Self,
        after: Self,
        on_disk: Seq<Seq<char>>,
        action: RecoveryAction,
        id: Seq<char>,
    )
        requires
            before.wf(),
            Self::looked_again(before, after, on_disk, action),
        ensures
            text::views(after.unrecovered@).contains(id) <==> text::views(
                before.unrecovered@,
            ).contains(id) && !on_disk.contains(id),
            action is Find <==> before.tick % 10 == 0,
            action is Poll <==> before.tick % 10 != 0,
            action matches RecoveryAction::Find(ids) ==> (text::views(ids@).contains(id)
                <==> text::views(before.unrecovered@).contains(id) && !on_disk.contains(id)),
            after.expected@.len() <= u32::MAX && after.unrecovered@.len() <= after.expected@.len()
                ==> after.status.recovered + after.unrecovered@.len() == after.expected@.len(),
            after.expected == before.expected,
    {
        Self::lemma_missing(text::views(before.unrecovered@), on_disk);
    }

    /// The first look at the disk after the manifest was read: what is already
    /// there is not asked for.
    pub fn children_listed_first(&mut self, on_disk: &Vec<String>) -> (action: RecoveryAction)
        requires
            old(self).wf(),
            old(self).status.total == count32(old(self).expected@.len() as int),
        ensures
            final(self).wf(),
            Self::looked_first(*old(self), *final(self), text::views(on_disk@), action),
    {
        proof {
            Self::lemma_missing(text::views(self.expected@), text::views(on_disk@));
        }
        self.unrecovered = text::without(&self.expected, on_disk);
        self.status.recovered = saturate32(self.expected.len() - self.unrecovered.len());
        RecoveryAction::Find(text::copy_list(&self.unrecovered))
    }

    /// What a poll for the recordings does.
    pub open spec fn children_polled(
        before: Self,
        after: Self,
        cancelled: bool,
        elapsed_ms: u64,
        action: RecoveryAction,
    ) -> bool {
        if before.unrecovered@.len() == 0 {
            &&& Self::only_state(before, after, RecoveryState::Complete)
            &&& action == RecoveryAction::Stop
        } else if cancelled {
            &&& Self::only_state(before, after, RecoveryState::Cancelled)
            &&& action == RecoveryAction::Stop
        } else if elapsed_ms >= CHILDREN_STAGE_TIMEOUT_MS {
            &&& Self::only_state(before, after, RecoveryState::Complete)
            &&& action == RecoveryAction::Stop
        } else {
            after == before && action == RecoveryAction::Sleep
        }
    }

    /// While a recording is missing the recovery goes on for ten minutes unless it is
    /// cancelled; it is complete at once where none is, cancelled or not.
    pub proof fn law_recordings_have_ten_minutes(
        before: Self,
        after: Self,
        cancelled: bool,
        elapsed_ms: u64,
        action: RecoveryAction,
    )
        requires
            Self::children_polled(before, after, cancelled, elapsed_ms, action),
        ensures
            action is Sleep <==> before.unrecovered@.len() > 0 && !cancelled && elapsed_ms < 600000,
            !(action is Sleep) ==> action is Stop,
            action is Sleep ==> after == before,
            before.unrecovered@.len() == 0 ==> after.status.state == RecoveryState::Complete,
            before.unrecovered@.len() > 0 && cancelled ==> after.status.state
                == RecoveryState::Cancelled,
            before.unrecovered@.len() > 0 && !cancelled && elapsed_ms >= 600000
                ==> after.status.state == RecoveryState::Complete,
            after.expected == before.expected,
            after.unrecovered == before.unrecovered,
            after.status.total == before.status.total,
            after.status.recovered == before.status.recovered,
    {
    }

    /// Begins a poll for the recordings: the recovery is complete once nothing
    /// is missing; a cancellation wins over the time limit, which ends the
    /// recovery with what has arrived so far.
    pub fn children_poll(&mut self, cancelled: bool, elapsed_ms: u64) -> (action: RecoveryAction)
        requires
            old(self).wf(),
        ensures
            final(self).wf(),
            Self::children_polled(*old(self), *final(self), cancelled, elapsed_ms, action),
    {
        if self.unrecovered.len() == 0 {
            self.status.state = RecoveryState::Complete;
            RecoveryAction::Stop
        } else if cancelled {
            self.status.state = RecoveryState::Cancelled;
            RecoveryAction::Stop
        } else if elapsed_ms >= CHILDREN_STAGE_TIMEOUT_MS {
            self.status.state = RecoveryState::Complete;
            RecoveryAction::Stop
        } else {
            RecoveryAction::Sleep
        }
    }

    /// After the pause of a poll for the recordings: look at the disk.
    pub fn children_slept(&mut self) -> (action: RecoveryAction)
        requires
            old(self).wf(),
        ensures
            final(self).wf(),
            *final(self) == (Recovery { tick: Self::next_tick(old(self).tick), ..*old(self) }),
            action == RecoveryAction::List,
    {
        self.tick = self.tick.saturating_add(1);
        RecoveryAction::List
    }

    /// Takes note of what has arrived. Every tenth time providers of what is
    /// still missing are looked for again.
    pub fn children_listed(&mut self, on_disk: &Vec<String>) -> (action: RecoveryAction)
        requires
            old(self).wf(),
            old(self).status.total == count32(old(self).expected@.len() as int),
        ensures
            final(self).wf(),
            Self::looked_again(*old(self), *final(self), text::views(on_disk@), action),
    {
        proof {
            Self::lemma_missing(text::views(self.unrecovered@), text::views(on_disk@));
        }
        self.unrecovered = text::without(&self.unrecovered, on_disk);
        self.status.recovered = saturate32(self.expected.len() - self.unrecovered.len());
        if self.tick % REFIND_EVERY_TICKS == 0 {
            RecoveryAction::Find(text::copy_list(&self.unrecovered))
        } else {
            RecoveryAction::Poll
        }
    }

    /// Progress never goes back: what has arrived stays counted, and what is
    /// missing after a look at the disk was expected, missing before, and not
    /// on disk.
    pub proof fn law_progress_is_monotone(
        before: Self,
        after: Self,
        on_disk: Seq<Seq<char>>,
        id: Seq<char>,
    )
        requires
            before.wf(),
            before.progress_is_shown(),
            after.progress_is_shown(),
            after.expected == before.expected,
            text::views(after.unrecovered@) == Self::missing(
                text::views(before.unrecovered@),
                on_disk,
            ),
        ensures
            after.status.recovered >= before.status.recovered,
            text::views(after.unrecovered@).contains(id) <==> text::views(
                before.unrecovered@,
            ).contains(id) && !on_disk.contains(id),
    {
        Self::lemma_missing(text::views(before.unrecovered@), on_disk);
    }
}

} // verus!
