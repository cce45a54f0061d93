//! Per-recording policy: may the mesh hear of a recording.
use vstd::prelude::*;
use crate::evidence::GuardianError;
use crate::text;
use crate::text_map;
use crate::text_map::TextMap;
use crate::wire;

verus! {

/// The version of the form in which policies are kept.
pub const RECORDING_METADATA_VERSION: u8 = 1;

/// What may be chosen of a recording when it starts.
#[derive(Debug, Clone, Copy, PartialEq, Eq, Structural)]
pub struct RecordingOptions {
    pub publishable: bool,
}

/// The policy of a recording, as it is kept.
#[derive(Debug, Clone, Copy, PartialEq, Eq, Structural)]
pub struct RecordingMetadata {
    pub schema_version: u8,
    pub publishable: bool,
}

impl RecordingOptions {
    /// The policy that follows from the options, under the current version.
    pub open spec fn metadata(self) -> RecordingMetadata {
        RecordingMetadata {
            schema_version: RECORDING_METADATA_VERSION,
            publishable: self.publishable,
        }
    }

    pub fn into_metadata(self) -> (metadata: RecordingMetadata)
        ensures
            metadata == self.metadata(),
    {
        RecordingMetadata {
            schema_version: RECORDING_METADATA_VERSION,
            publishable: self.publishable,
        }
    }
}

impl Default for RecordingOptions {
    /// A recording may be told of unless someone says otherwise.
    fn default() -> (options: Self)
        ensures
            options.publishable,
    {
        RecordingOptions { publishable: true }
    }
}

/// Per-recording policy map.
pub struct RecordingMetadataStore {
    pub map: TextMap<RecordingMetadata>,
}

impl RecordingMetadataStore {
    pub open spec fn wf(&self) -> bool {
        self.map.wf()
    }

    /// The policy in force: a recording without an entry is publishable.
    pub open spec fn publishable(&self, recording_id: Seq<char>) -> bool {
        self.map@.dom().contains(recording_id) ==> self.map@[recording_id].publishable
    }

    /// The mesh may hear of every recording but those with a policy against it, and what
    /// was chosen of a recording is in force for it and for no other.
    pub proof fn law_choices_are_in_force(
        before: Self,
        after: Self,
        recording_id: Seq<char>,
        options: RecordingOptions,
        other: Seq<char>,
    )
        requires
            after.map@ == before.map@.insert(recording_id, options.metadata()),
        ensures
            after.publishable(recording_id) <==> options.publishable,
            options.metadata().schema_version == 1,
            other != recording_id ==> after.publishable(other) == before.publishable(other),
            !before.map@.dom().contains(other) ==> before.publishable(other),
            before.map@.dom().contains(other) && !before.map@[other].publishable
                ==> !before.publishable(other),
    {
    }

    pub fn new() -> (store: Self)
        ensures
            store.wf(),
            store.map@ == Map::<Seq<char>, RecordingMetadata>::empty(),
    {
        RecordingMetadataStore { map: TextMap::new() }
    }

    /// Insert or replace the metadata entry for a recording.
    pub fn insert(&mut self, recording_id: String, metadata: RecordingMetadata)
        requires
            old(self).wf(),
        ensures
            final(self).wf(),
            final(self).map@ == old(self).map@.insert(recording_id@, metadata),
    {
        self.map.insert(recording_id, metadata);
    }

    /// Remove the metadata entry for a recording, returning the previous value if any.
    pub fn remove(&mut self, recording_id: &String) -> (prev: Option<RecordingMetadata>)
        requires
            old(self).wf(),
        ensures
            final(self).wf(),
            final(self).map@ == old(self).map@.remove(recording_id@),
            match prev {
                Some(m) => old(self).map@.dom().contains(recording_id@) && m
                    == old(self).map@[recording_id@],
                None => !old(self).map@.dom().contains(recording_id@),
            },
    {
        self.map.remove(recording_id)
    }

    /// What is kept of each policy: its version and its flag.
    pub open spec fn fields(map: Map<Seq<char>, RecordingMetadata>) -> Map<Seq<char>, (u8, bool)> {
        map.map_values(|m: RecordingMetadata| (m.schema_version, m.publishable))
    }

    /// `data` is what is written of a policy map.
    pub open spec fn is_written(map: Map<Seq<char>, RecordingMetadata>, data: Seq<u8>) -> bool {
        exists|rows: Seq<(Seq<char>, (u8, bool))>|
            text_map::are_entries(rows, Self::fields(map)) && data
                == #[trigger] wire::policy_rows_bytes(rows)
    }

    /// What is written of the map, before encryption: the recordings in the order
    /// of their names, each with its version and its flag.
    pub fn plaintext(&self) -> (data: Vec<u8>)
        requires
            self.wf(),
        ensures
            Self::is_written(self.map@, data@),
    {
        let names = self.map.sorted_keys();
        let mut table: Vec<(String, (u8, bool))> = Vec::new();
        let mut i: usize = 0;
        while i < names.len()
            invariant
                self.wf(),
                text::views(names@).to_set() == self.map@.dom(),
                i <= names@.len(),
                table@.len() == i,
                forall|k: int|
                    0 <= k < i ==> (#[trigger] table@[k]).0@ == names@[k]@
                        && self.map@.dom().contains(names@[k]@) && table@[k].1
                        == (self.map@[names@[k]@].schema_version, self.map@[names@[k]@].publishable),
            decreases names@.len() - i,
        {
            assert(text::views(names@)[i as int] == names@[i as int]@);
            assert(text::views(names@).to_set().contains(names@[i as int]@));
            match self.map.get(&names[i]) {
                Some(m) => {
                    table.push((names[i].clone(), (m.schema_version, m.publishable)));
                },
                None => {},
            }
            i += 1;
        }
        proof {
            let rows = wire::policy_rows(table@);
            let fields = Self::fields(self.map@);
            assert(text_map::names_of(rows) =~= text::views(names@));
            assert(fields.dom() =~= self.map@.dom());
            assert forall|k: int| 0 <= k < rows.len() implies (#[trigger] rows[k]).1
                == fields[rows[k].0] by {
                assert(table@[k].0@ == names@[k]@);
            }
            assert(text_map::are_entries(rows, fields));
        }
        wire::encode_policy_rows(&table)
    }

    /// What loading does: the map is the one that was written, empty where there
    /// is no file, and as it was where the file cannot be read.
    pub open spec fn load_effect(
        before: Self,
        after: Self,
        plaintext: Option<Seq<u8>>,
        loaded: Result<(), GuardianError>,
    ) -> bool {
        match plaintext {
            None => loaded is Ok && after.map@ == Map::<Seq<char>, RecordingMetadata>::empty(),
            Some(data) => {
                &&& match wire::postcard_policy_rows(usize::BITS as nat, data) {
                    Ok(rows) => loaded is Ok && Self::fields(after.map@) == text_map::map_of(rows),
                    Err(words) => {
                        &&& loaded matches Err(e) && e.is_serialization(words)
                        &&& after.map@ == before.map@
                    },
                }
                &&& forall|map: Map<Seq<char>, RecordingMetadata>| #[trigger]
                    Self::is_written(map, data) ==> loaded is Ok && after.map@ == map
            },
        }
    }

    /// Takes the map out of what was written of it; `None` stands for a file that
    /// is not there.
    pub fn load(&mut self, plaintext: Option<&[u8]>) -> (loaded: Result<(), GuardianError>)
        requires
            old(self).wf(),
        ensures
            final(self).wf(),
            Self::load_effect(
                *old(self),
                *final(self),
                match plaintext {
                    Some(data) => Some(data@),
                    None => None,
                },
                loaded,
            ),
    {
        let data: &[u8] = match plaintext {
            Some(data) => data,
            None => {
                self.map = TextMap::new();
                return Ok(());
            },
        };
        let table = match wire::decode_policy_rows(data) {
            Ok(table) => table,
            Err(words) => {
                return Err(GuardianError::SerializationError(words));
            },
        };
        let ghost rows = wire::policy_rows(table@);
        let mut map: TextMap<RecordingMetadata> = TextMap::new();
        let mut i: usize = 0;
        assert(rows.subrange(0, 0) =~= Seq::<(Seq<char>, (u8, bool))>::empty());
        assert(Self::fields(map@) =~= Map::<Seq<char>, (u8, bool)>::empty());
        while i < table.len()
            invariant
                rows == wire::policy_rows(table@),
                i <= table@.len(),
                map.wf(),
                Self::fields(map@) == text_map::map_of(rows.subrange(0, i as int)),
            decreases table@.len() - i,
        {
            let ghost before = map@;
            proof {
                let longer = rows.subrange(0, i + 1);
                assert(longer.drop_last() =~= rows.subrange(0, i as int));
                assert(longer.last() == rows[i as int]);
            }
            let (schema_version, publishable) = table[i].1;
            map.insert(table[i].0.clone(), RecordingMetadata { schema_version, publishable });
            assert(Self::fields(map@) =~= Self::fields(before).insert(
                table@[i as int].0@,
                table@[i as int].1,
            ));
            i += 1;
        }
        self.map = map;
        proof {
            assert(rows.subrange(0, i as int) =~= rows);
            assert forall|held: Map<Seq<char>, RecordingMetadata>| #[trigger]
                Self::is_written(held, data@) implies self.map@ == held by {
                let written = choose|r: Seq<(Seq<char>, (u8, bool))>|
                    text_map::are_entries(r, Self::fields(held)) && data@
                        == #[trigger] wire::policy_rows_bytes(r);
                assert(rows == written);
                text_map::lemma_entries_stand_for(written, Self::fields(held));
                assert(Self::fields(self.map@) == Self::fields(held));
                assert(self.map@.dom() =~= Self::fields(self.map@).dom());
                assert(held.dom() =~= Self::fields(held).dom());
                assert forall|k: Seq<char>| held.dom().contains(k) implies self.map@[k]
                    == held[k] by {
                    let (now, then) = (self.map@[k], held[k]);
                    assert(Self::fields(self.map@)[k] == (now.schema_version, now.publishable));
                    assert(Self::fields(held)[k] == (then.schema_version, then.publishable));
                }
                assert(self.map@ =~= held);
            }
        }
        Ok(())
    }

    /// Returns whether the recording is publishable.
    pub fn is_publishable(&self, recording_id: &String) -> (b: bool)
        requires
            self.wf(),
        ensures
            b == self.publishable(recording_id@),
    {
        match self.map.get(recording_id) {
            Some(m) => m.publishable,
            None => true,
        }
    }
}

impl Default for RecordingMetadataStore {
    fn default() -> (store: Self)
        ensures
            store.wf(),
            store.map@ == Map::<Seq<char>, RecordingMetadata>::empty(),
    {
        RecordingMetadataStore::new()
    }
}

} // verus!
