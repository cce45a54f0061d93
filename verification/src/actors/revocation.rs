//! Revocation: a token that comes in is checked, applied, and passed on.
use vstd::prelude::*;
use crate::actors::egress::EgressCommand;

verus! {

/// A token that could be read, in its serialized form, and whether its own
/// signature verifies.
#[derive(Debug)]
pub struct InboundToken {
    pub recording_id: String,
    pub token: Vec<u8>,
    pub signature_ok: bool,
}

/// What storage said of a revocation.
#[derive(Debug, Clone, Copy, PartialEq, Eq, Structural)]
pub enum RevocationReply {
    Applied,
    Rejected,
    /// Storage is gone.
    Dropped,
}

pub struct RevocationActor;

impl RevocationActor {
    pub open spec fn is_forwarded(token: Option<InboundToken>, forward: bool) -> bool {
        forward == (token is Some && token->0.signature_ok)
    }

    /// `commands` follow the reply of storage to a token.
    pub open spec fn follows(
        token: InboundToken,
        reply: RevocationReply,
        commands: Seq<EgressCommand>,
    ) -> bool {
        commands == if reply == RevocationReply::Applied {
            seq![
                EgressCommand::PublishRevocation(token.token),
                EgressCommand::WithdrawProvider(token.recording_id),
            ]
        } else {
            Seq::empty()
        }
    }

    /// Every signed token is applied, and once it is the mesh is told of it, in the
    /// bytes in which it came, before the recording is withdrawn; without that nothing
    /// goes out.
    pub proof fn law_applied_revocations_are_passed_on(
        token: InboundToken,
        forward: bool,
        reply: RevocationReply,
        commands: Seq<EgressCommand>,
    )
        requires
            Self::is_forwarded(Some(token), forward),
            Self::follows(token, reply, commands),
        ensures
            forward <==> token.signature_ok,
            reply == RevocationReply::Applied ==> commands.len() == 2 && commands[0]
                == EgressCommand::PublishRevocation(token.token) && commands[1]
                == EgressCommand::WithdrawProvider(token.recording_id),
            reply != RevocationReply::Applied ==> commands.len() == 0,
    {
    }

    /// Decides whether storage is asked: the token could be read and is signed.
    pub fn accept(token: &Option<InboundToken>) -> (forward: bool)
        ensures
            Self::is_forwarded(*token, forward),
    {
        match token {
            Some(t) => t.signature_ok,
            None => false,
        }
    }

    /// What follows storage's reply: an applied revocation is passed on, and then
    /// the node no longer offers the recording.
    pub fn after_storage(token: InboundToken, reply: RevocationReply) -> (commands: Vec<
        EgressCommand,
    >)
        ensures
            Self::follows(token, reply, commands@),
    {
        let mut commands: Vec<EgressCommand> = Vec::new();
        match reply {
            RevocationReply::Applied => {
                commands.push(EgressCommand::PublishRevocation(token.token));
                commands.push(EgressCommand::WithdrawProvider(token.recording_id));
                assert(commands@ =~= seq![
                    EgressCommand::PublishRevocation(token.token),
                    EgressCommand::WithdrawProvider(token.recording_id),
                ]);
            },
            _ => {
                assert(commands@ =~= Seq::<EgressCommand>::empty());
            },
        }
        commands
    }
}

} // verus!
