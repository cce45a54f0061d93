//! Vitals: the node's own heartbeat, and the heartbeats of others.
use vstd::prelude::*;
use crate::actors::mesh_policy::{community_keys, CommunityId};
use crate::bytes;

verus! {

/// The shortest frame: a nonce and an authentication tag.
pub const MIN_FRAME_LEN: usize = 40;

/// The length of the nonce.
pub const NONCE_LEN: usize = 24;

/// The bytes of a megabyte.
pub const MEGABYTE: u64 = 1048576;

/// The part of a heartbeat that is computed here.
#[derive(Debug)]
pub struct HeartbeatPlan {
    pub storage_remaining_mb: u64,
    pub heartbeat_ms: u64,
    /// One key for each community.
    pub keys: Vec<[u8; 32]>,
}

/// What came of trying one key on a frame.
#[derive(Debug)]
pub enum Attempt {
    /// The key does not open it.
    WrongKey,
    /// It opens, but holds no message.
    Undecodable,
    /// It holds a message of this sender.
    Message { sender: String },
}

/// What is done next.
#[derive(Debug, Clone, Copy, PartialEq, Eq, Structural)]
pub enum HeartbeatStep {
    TryNext,
    Drop,
    /// The message counts as a sign of life of its sender.
    Register,
}

pub struct VitalsActor {
    pub max_storage_bytes: u64,
}

/// The keys of the heartbeat, one for each community.
pub open spec fn are_heartbeat_keys(keys: Seq<[u8; 32]>, communities: Seq<CommunityId>) -> bool {
    &&& keys.len() == communities.len()
    &&& forall|i: int|
        0 <= i < keys.len() ==> (#[trigger] keys[i])@ == crate::crypto::blake3_derived_key(
            "phalanx.heartbeat.v1.community"@,
            communities[i]@,
        )
}

/// Every member of a community can open its heartbeats, whichever other communities
/// there are: the key rests on the community alone, so that two nodes have the same one.
pub proof fn law_members_share_their_heartbeat_key(
    keys: Seq<[u8; 32]>,
    communities: Seq<CommunityId>,
    other_keys: Seq<[u8; 32]>,
    other_communities: Seq<CommunityId>,
    i: int,
    k: int,
)
    requires
        are_heartbeat_keys(keys, communities),
        are_heartbeat_keys(other_keys, other_communities),
        0 <= i < communities.len(),
        0 <= k < other_communities.len(),
        communities[i]@ == other_communities[k]@,
    ensures
        keys.len() == communities.len(),
        other_keys.len() == other_communities.len(),
        keys[i]@ == other_keys[k]@,
        keys[i]@ == crate::crypto::blake3_derived_key(
            "phalanx.heartbeat.v1.community"@,
            communities[i]@,
        ),
{
}

impl VitalsActor {
    /// The free space that is told: whole megabytes, and never more than the wire
    /// field takes.
    pub open spec fn remaining_mb(&self, used_bytes: u64) -> int {
        let free = if used_bytes >= self.max_storage_bytes {
            0
        } else {
            self.max_storage_bytes - used_bytes
        };
        if free / MEGABYTE as int > u32::MAX {
            u32::MAX as int
        } else {
            free / MEGABYTE as int
        }
    }

    /// A node that is in no community sends no heartbeat.
    pub fn has_audience(communities: &Vec<CommunityId>) -> (b: bool)
        ensures
            b == (communities@.len() > 0),
    {
        communities.len() > 0
    }

    /// The keys that open a heartbeat.
    pub fn heartbeat_keys(communities: &Vec<CommunityId>) -> (keys: Vec<[u8; 32]>)
        ensures
            are_heartbeat_keys(keys@, communities@),
    {
        community_keys("phalanx.heartbeat.v1.community", communities)
    }

    /// `plan` is the heartbeat of a node that uses so much of its storage.
    pub open spec fn is_plan(
        &self,
        used_bytes: u64,
        interval_ms: u64,
        communities: Seq<CommunityId>,
        plan: HeartbeatPlan,
    ) -> bool {
        &&& plan.storage_remaining_mb == self.remaining_mb(used_bytes)
        &&& plan.heartbeat_ms == interval_ms
        &&& are_heartbeat_keys(plan.keys@, communities)
    }

    /// A heartbeat tells of every whole megabyte that is free, up to what thirty-two
    /// bits can hold, and of none where the storage is full; it goes to every
    /// community.
    pub proof fn law_heartbeats_tell_the_free_space(
        &self,
        used_bytes: u64,
        interval_ms: u64,
        communities: Seq<CommunityId>,
        plan: HeartbeatPlan,
    )
        requires
            self.is_plan(used_bytes, interval_ms, communities, plan),
        ensures
            used_bytes >= self.max_storage_bytes ==> plan.storage_remaining_mb == 0,
            plan.storage_remaining_mb <= u32::MAX,
            used_bytes < self.max_storage_bytes ==> plan.storage_remaining_mb * 1048576
                <= self.max_storage_bytes - used_bytes,
            used_bytes < self.max_storage_bytes && plan.storage_remaining_mb < u32::MAX
                ==> self.max_storage_bytes - used_bytes < (plan.storage_remaining_mb + 1) * 1048576,
            plan.heartbeat_ms == interval_ms,
            plan.keys@.len() == communities.len(),
    {
    }

    /// Draws up a heartbeat, once the node has an audience and a reason to send it.
    pub fn publish_tick(
        &self,
        used_bytes: u64,
        interval_ms: u64,
        communities: &Vec<CommunityId>,
    ) -> (plan: HeartbeatPlan)
        ensures
            self.is_plan(used_bytes, interval_ms, communities@, plan),
    {
        let remaining: u64 = self.max_storage_bytes.saturating_sub(used_bytes);
        let mb: u64 = remaining / MEGABYTE;
        let storage_remaining_mb: u64 = if mb > u32::MAX as u64 {
            u32::MAX as u64
        } else {
            mb
        };
        HeartbeatPlan {
            storage_remaining_mb,
            heartbeat_ms: interval_ms,
            keys: Self::heartbeat_keys(communities),
        }
    }

    /// `parts` are the parts of a frame.
    pub open spec fn are_parts(data: Seq<u8>, parts: Option<(Vec<u8>, Vec<u8>)>) -> bool {
        match parts {
            Some((nonce, ciphertext)) => data.len() >= MIN_FRAME_LEN && nonce@.len() == NONCE_LEN
                && data == nonce@ + ciphertext@,
            None => data.len() < MIN_FRAME_LEN,
        }
    }

    /// Every frame of forty bytes or more is parted, after its twenty-fourth byte, and
    /// none that is shorter.
    pub proof fn law_frames_part_after_the_nonce(
        data: Seq<u8>,
        parts: Option<(Vec<u8>, Vec<u8>)>,
    )
        requires
            Self::are_parts(data, parts),
        ensures
            parts is Some <==> data.len() >= 40,
            parts matches Some((nonce, ciphertext)) ==> nonce@ == data.take(24) && ciphertext@
                == data.skip(24),
    {
        match parts {
            Some((nonce, ciphertext)) => {
                assert(nonce@ =~= data.take(24));
                assert(ciphertext@ =~= data.skip(24));
            },
            None => {},
        }
    }

    /// Parts a frame into nonce and ciphertext; one that is too short is nothing.
    pub fn split_frame(data: &[u8]) -> (parts: Option<(Vec<u8>, Vec<u8>)>)
        ensures
            Self::are_parts(data@, parts),
    {
        if data.len() < MIN_FRAME_LEN {
            return None;
        }
        let nonce = bytes::slice(data, 0, NONCE_LEN);
        let ciphertext = bytes::slice(data, NONCE_LEN, data.len());
        assert(data@ =~= nonce@ + ciphertext@);
        Some((nonce, ciphertext))
    }

    /// What one attempt leads to. The claimed sender must be the peer that the
    /// frame came from; a relay that passed on a forgery is not charged for it.
    pub open spec fn step_after(origin: Seq<char>, attempt: Attempt) -> HeartbeatStep {
        match attempt {
            Attempt::WrongKey => HeartbeatStep::TryNext,
            Attempt::Undecodable => HeartbeatStep::Drop,
            Attempt::Message { sender } => if sender@ == origin {
                HeartbeatStep::Register
            } else {
                HeartbeatStep::Drop
            },
        }
    }

    /// What the whole frame leads to: the first key that opens it decides.
    pub open spec fn verdict(origin: Seq<char>, attempts: Seq<Attempt>) -> HeartbeatStep
        decreases attempts.len(),
    {
        if attempts.len() == 0 {
            HeartbeatStep::Drop
        } else if attempts[0] is WrongKey {
            Self::verdict(origin, attempts.drop_first())
        } else {
            Self::step_after(origin, attempts[0])
        }
    }

    /// Only a message whose claimed sender is the peer that it came from counts.
    pub proof fn law_spoofed_heartbeats_are_dropped(origin: Seq<char>, attempts: Seq<Attempt>)
        requires
            Self::verdict(origin, attempts) == HeartbeatStep::Register,
        ensures
            exists|i: int|
                0 <= i < attempts.len() && (#[trigger] attempts[i] matches Attempt::Message {
                    sender,
                } && sender@ == origin),
        decreases attempts.len(),
    {
        if attempts.len() > 0 {
            if attempts[0] is WrongKey {
                Self::law_spoofed_heartbeats_are_dropped(origin, attempts.drop_first());
                let i = choose|i: int|
                    0 <= i < attempts.drop_first().len() && (
                    #[trigger] attempts.drop_first()[i] matches Attempt::Message { sender }
                        && sender@ == origin);
                assert(attempts[i + 1] == attempts.drop_first()[i]);
            } else {
                assert(attempts[0] is Message);
            }
        }
    }

    /// The first key that opens a frame decides, however many were tried in vain: a
    /// message counts exactly where its sender is the peer that it came from.
    pub proof fn law_the_first_opening_key_decides(
        origin: Seq<char>,
        attempts: Seq<Attempt>,
        k: int,
    )
        requires
            0 <= k <= attempts.len(),
            forall|j: int| 0 <= j < k ==> (#[trigger] attempts[j]) is WrongKey,
            k < attempts.len() ==> !(attempts[k] is WrongKey),
        ensures
            k == attempts.len() ==> Self::verdict(origin, attempts) == HeartbeatStep::Drop,
            k < attempts.len() && attempts[k] is Undecodable ==> Self::verdict(origin, attempts)
                == HeartbeatStep::Drop,
            k < attempts.len() ==> (attempts[k] matches Attempt::Message { sender } ==> (
            Self::verdict(origin, attempts) == HeartbeatStep::Register <==> sender@ == origin)),
        decreases k,
    {
        if k > 0 {
            let rest = attempts.drop_first();
            assert(attempts[0] is WrongKey);
            assert forall|j: int| 0 <= j < k - 1 implies (#[trigger] rest[j]) is WrongKey by {
                assert(attempts[j + 1] is WrongKey);
            }
            Self::law_the_first_opening_key_decides(origin, rest, k - 1);
        }
    }

    /// Decides after one attempt.
    pub fn on_attempt(origin: &String, attempt: &Attempt) -> (step: HeartbeatStep)
        ensures
            step == Self::step_after(origin@, *attempt),
    {
        match attempt {
            Attempt::WrongKey => HeartbeatStep::TryNext,
            Attempt::Undecodable => HeartbeatStep::Drop,
            Attempt::Message { sender } => {
                if *sender == *origin {
                    HeartbeatStep::Register
                } else {
                    HeartbeatStep::Drop
                }
            },
        }
    }

    /// Decides on a frame, given what came of each key in turn.
    pub fn handle_inbound(origin: &String, attempts: &Vec<Attempt>) -> (step: HeartbeatStep)
        ensures
            step == Self::verdict(origin@, attempts@),
    {
        let mut i: usize = 0;
        assert(attempts@.subrange(0, attempts@.len() as int) =~= attempts@);
        while i < attempts.len()
            invariant
                i <= attempts@.len(),
                Self::verdict(origin@, attempts@) == Self::verdict(
                    origin@,
                    attempts@.subrange(i as int, attempts@.len() as int),
                ),
            decreases attempts@.len() - i,
        {
            let step = Self::on_attempt(origin, &attempts[i]);
            proof {
                let rest = attempts@.subrange(i as int, attempts@.len() as int);
                assert(rest.drop_first() =~= attempts@.subrange(i + 1, attempts@.len() as int));
                assert(rest[0] == attempts@[i as int]);
            }
            match step {
                HeartbeatStep::TryNext => {},
                _ => {
                    return step;
                },
            }
            i += 1;
        }
        HeartbeatStep::Drop
    }
}

} // verus!
