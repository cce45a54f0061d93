//! The recording in progress, if there is one.
use vstd::prelude::*;

verus! {

/// The way in which a peer is reached.
#[derive(Debug, Clone, Copy, PartialEq, Eq, Structural)]
pub enum TransportClass {
    Internet,
    LocalMesh,
}

/// A peer was near while a recording ran.
#[derive(Debug)]
pub struct ProximityWitness {
    pub local_did: String,
    pub remote_did: String,
    pub recording_id: String,
    pub observed_at: u64,
    pub transport: TransportClass,
}

/// The state of the recording session. `content_key` is the key that media is
/// encrypted with at the moment, none where the vault key is used;
/// `recording_active` is the flag that readers outside the engine see.
pub struct RecordingSessionState {
    pub active_recording_id: Option<String>,
    pub active_recording_key: Option<[u8; 32]>,
    pub proximity_witnesses: Vec<ProximityWitness>,
    pub content_key: Option<[u8; 32]>,
    pub recording_active: bool,
}

impl RecordingSessionState {
    /// The flag tells whether there is a recording.
    pub open spec fn wf(&self) -> bool {
        self.recording_active == (self.active_recording_id is Some)
    }

    pub fn new() -> (session: Self)
        ensures
            session.wf(),
            session.active_recording_id is None,
            session.active_recording_key is None,
            session.proximity_witnesses@.len() == 0,
            session.content_key is None,
    {
        RecordingSessionState {
            active_recording_id: None,
            active_recording_key: None,
            proximity_witnesses: Vec::new(),
            content_key: None,
            recording_active: false,
        }
    }

    pub fn is_active(&self) -> (b: bool)
        ensures
            b == (self.active_recording_id is Some),
    {
        self.active_recording_id.is_some()
    }

    pub fn recording_id(&self) -> (id: Option<&String>)
        ensures
            match id {
                Some(s) => self.active_recording_id == Some(*s),
                None => self.active_recording_id is None,
            },
    {
        match &self.active_recording_id {
            Some(s) => Some(s),
            None => None,
        }
    }

    /// What a start does: a key, where one is given, is switched to at once.
    pub open spec fn started(before: Self, id: String, key: Option<[u8; 32]>) -> Self {
        RecordingSessionState {
            active_recording_id: Some(id),
            active_recording_key: key,
            content_key: if key is Some {
                key
            } else {
                before.content_key
            },
            recording_active: true,
            ..before
        }
    }

    /// Marks a recording as active.
    pub fn start(&mut self, id: String, key: Option<[u8; 32]>)
        ensures
            final(self).wf(),
            *final(self) == Self::started(*old(self), id, key),
    {
        self.active_recording_id = Some(id);
        self.active_recording_key = key;
        if key.is_some() {
            self.content_key = key;
        }
        self.recording_active = true;
    }

    /// What a stop does.
    pub open spec fn stop_effect(
        before: Self,
        after: Self,
        witnesses: Seq<ProximityWitness>,
    ) -> bool {
        &&& witnesses == before.proximity_witnesses@
        &&& after.proximity_witnesses@.len() == 0
        &&& after.active_recording_id is None
        &&& after.active_recording_key is None
        &&& after.content_key is None
    }

    /// What a witness does.
    pub open spec fn witnessed(before: Self, after: Self, witness: ProximityWitness) -> bool {
        &&& after == (RecordingSessionState {
            proximity_witnesses: after.proximity_witnesses,
            ..before
        })
        &&& after.proximity_witnesses@ == before.proximity_witnesses@.push(witness)
    }

    /// A recording with a key is encrypted under it until it stops, and then the vault
    /// key is back; one without leaves the key in use alone. A witness of the
    /// recording is handed out at its stop, behind those that came before it.
    pub proof fn law_a_session_gives_back_what_it_took(
        s0: Self,
        s1: Self,
        s2: Self,
        s3: Self,
        id: String,
        key: Option<[u8; 32]>,
        witness: ProximityWitness,
        witnesses: Seq<ProximityWitness>,
    )
        requires
            s1 == Self::started(s0, id, key),
            Self::witnessed(s1, s2, witness),
            Self::stop_effect(s2, s3, witnesses),
        ensures
            s1.active_recording_id == Some(id),
            s1.active_recording_key == key,
            s1.recording_active,
            key is Some ==> s1.content_key == key && s2.content_key == key,
            key is None ==> s1.content_key == s0.content_key && s2.content_key == s0.content_key,
            s2.active_recording_id == Some(id),
            witnesses.len() == s0.proximity_witnesses@.len() + 1,
            witnesses.last() == witness,
            witnesses.drop_last() == s0.proximity_witnesses@,
            s3.proximity_witnesses@.len() == 0,
            s3.active_recording_id is None,
            s3.active_recording_key is None,
            s3.content_key is None,
    {
        assert(witnesses.drop_last() =~= s0.proximity_witnesses@);
    }

    /// Ends the recording, hands out the witnesses and goes back to the vault key.
    pub fn stop(&mut self) -> (witnesses: Vec<ProximityWitness>)
        ensures
            final(self).wf(),
            Self::stop_effect(*old(self), *final(self), witnesses@),
    {
        self.active_recording_id = None;
        self.active_recording_key = None;
        self.content_key = None;
        self.recording_active = false;
        let mut witnesses: Vec<ProximityWitness> = Vec::new();
        witnesses.append(&mut self.proximity_witnesses);
        assert(witnesses@ =~= old(self).proximity_witnesses@);
        witnesses
    }

    pub fn push_witness(&mut self, witness: ProximityWitness)
        ensures
            Self::witnessed(*old(self), *final(self), witness),
    {
        self.proximity_witnesses.push(witness);
    }
}

} // verus!
