//! Retrieval: what a peer that asks for a recording is told.
use vstd::prelude::*;
use crate::actors::retrieval_request::RecordingRequest;
use crate::evidence::Offense;
use crate::identity;

verus! {

/// The answer to a request. A sealed shard is kept in its serialized form.
#[derive(Debug)]
pub enum RecordingResponse {
    Busy,
    Unauthorized,
    NotFound,
    Success(Vec<Vec<u8>>),
}

/// The state of the node when a request comes.
#[derive(Debug, Clone, Copy, PartialEq, Eq, Structural)]
pub struct RetrievalLoad {
    /// The recording was not asked for too often.
    pub rate_ok: bool,
    /// Storage cannot keep up.
    pub io_saturated: bool,
    /// Heat and battery allow heavy work.
    pub permitted: bool,
}

/// What the gates decided.
#[derive(Debug)]
pub struct GateOutcome {
    /// The refusal, if there is one.
    pub response: Option<RecordingResponse>,
    /// The attempt counts towards the rate limit.
    pub record_attempt: bool,
    /// The offense that the named owner is charged with.
    pub offense: Option<(String, Offense)>,
}

/// What became of an envelope on its way out.
#[derive(Debug)]
pub enum SealVerdict {
    /// The envelope does not verify.
    Corrupt,
    /// The egress policy keeps it back.
    Denied,
    /// It goes out in this form.
    Sealed(Vec<u8>),
}

/// The request carries the signature of the one that the locator is made out to.
pub open spec fn is_authorized(request: RecordingRequest, resolved_key: Option<[u8; 32]>) -> bool {
    identity::retrieval_fault(
        match resolved_key {
            Some(k) => Some(k@),
            None => None,
        },
        request.signed_message(),
        request.signature@,
    ) is None
}

/// The sealed forms among the verdicts, in their order.
pub open spec fn sealed_of(verdicts: Seq<SealVerdict>) -> Seq<Vec<u8>>
    decreases verdicts.len(),
{
    if verdicts.len() == 0 {
        Seq::empty()
    } else {
        let front = sealed_of(verdicts.drop_last());
        match verdicts.last() {
            SealVerdict::Sealed(unit) => front.push(unit),
            _ => front,
        }
    }
}

proof fn lemma_sealed_are_filtered(verdicts: Seq<SealVerdict>)
    ensures
        sealed_of(verdicts) == verdicts.filter(|v: SealVerdict| v is Sealed).map_values(
            |v: SealVerdict| v->Sealed_0,
        ),
    decreases verdicts.len(),
{
    reveal(Seq::filter);
    if verdicts.len() > 0 {
        lemma_sealed_are_filtered(verdicts.drop_last());
    }
    assert(sealed_of(verdicts) =~= verdicts.filter(|v: SealVerdict| v is Sealed).map_values(
        |v: SealVerdict| v->Sealed_0,
    ));
}

pub struct RetrievalActor;

impl RetrievalActor {
    /// The gates, in their order: the rate limit, the load of storage, heat and
    /// battery, and the requester's signature.
    pub open spec fn gates(
        load: RetrievalLoad,
        authorized: bool,
        request: RecordingRequest,
        outcome: GateOutcome,
    ) -> bool {
        if !load.rate_ok {
            outcome.response == Some(RecordingResponse::Busy) && !outcome.record_attempt
                && outcome.offense is None
        } else {
            &&& outcome.record_attempt
            &&& if load.io_saturated {
                outcome.response == Some(RecordingResponse::Busy) && outcome.offense is None
            } else if !load.permitted {
                outcome.response == Some(RecordingResponse::Unauthorized)
                    && outcome.offense is None
            } else if !authorized {
                &&& outcome.response == Some(RecordingResponse::Unauthorized)
                &&& outcome.offense is Some
                &&& (outcome.offense->0).0@ == request.target_did@
                &&& (outcome.offense->0).1 == Offense::InvalidSignature
            } else {
                outcome.response is None && outcome.offense is None
            }
        }
    }

    /// Checks a request before storage is asked. `resolved_key` is the key that the
    /// requester's name stands for.
    pub fn check_retrieval_gates(
        load: RetrievalLoad,
        request: &RecordingRequest,
        resolved_key: Option<[u8; 32]>,
    ) -> (outcome: GateOutcome)
        ensures
            Self::gates(load, is_authorized(*request, resolved_key), *request, outcome),
    {
        if !load.rate_ok {
            return GateOutcome {
                response: Some(RecordingResponse::Busy),
                record_attempt: false,
                offense: None,
            };
        }
        if load.io_saturated {
            return GateOutcome {
                response: Some(RecordingResponse::Busy),
                record_attempt: true,
                offense: None,
            };
        }
        if !load.permitted {
            return GateOutcome {
                response: Some(RecordingResponse::Unauthorized),
                record_attempt: true,
                offense: None,
            };
        }
        let verdict = identity::verify_retrieval_auth(
            resolved_key,
            &request.target_did,
            &request.recording_id,
            request.locator.as_slice(),
            request.signature.as_slice(),
        );
        match verdict {
            Err(_) => GateOutcome {
                response: Some(RecordingResponse::Unauthorized),
                record_attempt: true,
                offense: Some((request.target_did.clone(), Offense::InvalidSignature)),
            },
            Ok(_) => GateOutcome { response: None, record_attempt: true, offense: None },
        }
    }

    /// Storage is asked only for requests that are signed as they must be, and
    /// only those that lack the signature are charged.
    pub proof fn law_only_authorized_requests_reach_storage(
        load: RetrievalLoad,
        authorized: bool,
        request: RecordingRequest,
        outcome: GateOutcome,
    )
        requires
            Self::gates(load, authorized, request, outcome),
        ensures
            outcome.response is None ==> authorized,
            outcome.offense is Some ==> !authorized,
    {
    }

    /// A request is passed on exactly where every gate is open to it: the rate
    /// allows it, storage is not saturated, the node may serve, and it is signed as
    /// it must be. A busy node says that it is busy, any other refusal is that the
    /// requester is not authorized, and only a bad signature is charged, to the one
    /// that the request names. An attempt counts once the rate allows it.
    pub proof fn law_open_gates_let_requests_through(
        load: RetrievalLoad,
        authorized: bool,
        request: RecordingRequest,
        outcome: GateOutcome,
    )
        requires
            Self::gates(load, authorized, request, outcome),
        ensures
            outcome.response is None <==> load.rate_ok && !load.io_saturated && load.permitted
                && authorized,
            outcome.response == Some(RecordingResponse::Busy) <==> !load.rate_ok
                || load.io_saturated,
            outcome.response is Some ==> outcome.response->0 is Busy
                || outcome.response->0 is Unauthorized,
            outcome.record_attempt <==> load.rate_ok,
            outcome.offense is Some <==> load.rate_ok && !load.io_saturated && load.permitted
                && !authorized,
            outcome.offense matches Some((did, offense)) ==> did@ == request.target_did@ && offense
                == Offense::InvalidSignature,
    {
    }

    /// `response` is the answer to a request whose envelopes got these verdicts.
    pub open spec fn answers(verdicts: Seq<SealVerdict>, response: RecordingResponse) -> bool {
        match response {
            RecordingResponse::Success(units) => units@ == sealed_of(verdicts) && units@.len() > 0,
            RecordingResponse::NotFound => sealed_of(verdicts).len() == 0,
            _ => false,
        }
    }

    /// Every sealed envelope is in the answer, once and in its order, and nothing
    /// else is: the answer is the verdicts that are sealed, each as its unit.
    /// Without any the recording is not found.
    pub proof fn law_every_sealed_unit_goes_out(
        verdicts: Seq<SealVerdict>,
        response: RecordingResponse,
    )
        requires
            Self::answers(verdicts, response),
        ensures
            response matches RecordingResponse::Success(units) ==> units@ == verdicts.filter(
                |v: SealVerdict| v is Sealed,
            ).map_values(|v: SealVerdict| v->Sealed_0),
            response is Success <==> exists|i: int|
                0 <= i < verdicts.len() && (#[trigger] verdicts[i]) is Sealed,
            !(response is Success) ==> response is NotFound,
            response matches RecordingResponse::Success(units) ==> forall|i: int|
                0 <= i < verdicts.len() ==> ((#[trigger] verdicts[i]) matches SealVerdict::Sealed(
                    unit,
                ) ==> units@.contains(unit)),
    {
        lemma_sealed_are_filtered(verdicts);
        let sealed = |v: SealVerdict| v is Sealed;
        let kept = verdicts.filter(sealed);
        let units = kept.map_values(|v: SealVerdict| v->Sealed_0);
        assert forall|i: int| 0 <= i < verdicts.len() && (
        #[trigger] verdicts[i]) is Sealed implies units.contains(verdicts[i]->Sealed_0) by {
            verdicts.lemma_filter_contains(sealed, i);
            let p = kept.index_of(verdicts[i]);
            assert(kept[p] == verdicts[i]);
            assert(units[p] == verdicts[i]->Sealed_0);
        }
        if units.len() > 0 {
            assert(kept.contains(kept[0]));
            verdicts.lemma_filter_contains_rev(sealed, kept[0]);
            verdicts.lemma_filter_pred(sealed, 0);
            let i = verdicts.index_of(kept[0]);
            assert(verdicts[i] is Sealed);
        }
    }

    /// The answer, once storage has replied: what could be verified and sealed, in
    /// its order, or nothing was found. A storage that is gone has nothing.
    pub fn respond(verdicts: Vec<SealVerdict>) -> (response: RecordingResponse)
        ensures
            Self::answers(verdicts@, response),
    {
        let ghost all = verdicts@;
        let mut rest = verdicts;
        let mut units: Vec<Vec<u8>> = Vec::new();
        let mut done: usize = 0;
        let total: usize = rest.len();
        assert(all.subrange(0, 0) =~= Seq::<SealVerdict>::empty());
        while rest.len() > 0
            invariant
                done + rest@.len() == all.len(),
                all.len() == total,
                rest@ == all.subrange(done as int, all.len() as int),
                units@ == sealed_of(all.subrange(0, done as int)),
            decreases rest@.len(),
        {
            let verdict = rest.remove(0);
            proof {
                let longer = all.subrange(0, done + 1);
                assert(longer.drop_last() =~= all.subrange(0, done as int));
                assert(longer.last() == verdict);
                assert(rest@ =~= all.subrange(done + 1, all.len() as int));
            }
            match verdict {
                SealVerdict::Sealed(unit) => {
                    units.push(unit);
                },
                _ => {},
            }
            done += 1;
        }
        assert(all.subrange(0, done as int) =~= all);
        if units.len() == 0 {
            RecordingResponse::NotFound
        } else {
            RecordingResponse::Success(units)
        }
    }
}

} // verus!
