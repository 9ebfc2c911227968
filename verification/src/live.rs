//! The live listener's routing: which real-time updates are captured.
//!
//! The surrounding process reads the remote service's update stream and
//! hands each update in as a plain event; the routing decision — ingest or
//! discard — is made and proved here, and an ingested message goes through
//! the same ingestion path as a replayed one.

use vstd::prelude::*;
use crate::model::{Conversation, MessageRecord};

verus! {

/// One observed real-time update, reduced to what the routing reads: the
/// message (if the update carries one), whether the archive owner sent it,
/// whether it came from a one-to-one conversation, and whether the sender
/// could be resolved.
pub enum UpdateEvent {
    NewMessage { msg: MessageRecord, outgoing: bool, from_user_chat: bool, has_sender: bool },
    OtherUpdate,
}

/// What to do with an update.
#[derive(Clone, Copy, Debug, PartialEq, Eq, Structural)]
pub enum UpdateAction {
    /// Hand the message to the ingestion path.
    Ingest,
    /// Log (if noteworthy) and drop: no resolvable sender, not a one-to-one
    /// conversation, or not a message at all.
    Discard,
}

/// The capture policy: an outgoing message is always captured (both
/// directions of a conversation are archived); an incoming one is captured
/// when its sender resolves and it comes from a one-to-one conversation;
/// everything else is discarded.
pub open spec fn route_spec(u: UpdateEvent) -> UpdateAction {
    match u {
        UpdateEvent::NewMessage { outgoing, from_user_chat, has_sender, .. } => {
            if outgoing {
                UpdateAction::Ingest
            } else if has_sender && from_user_chat {
                UpdateAction::Ingest
            } else {
                UpdateAction::Discard
            }
        },
        UpdateEvent::OtherUpdate => UpdateAction::Discard,
    }
}

pub fn route_update(u: &UpdateEvent) -> (a: UpdateAction)
    ensures
        a == route_spec(*u),
{
    match u {
        UpdateEvent::NewMessage { outgoing, from_user_chat, has_sender, .. } => {
            if *outgoing {
                UpdateAction::Ingest
            } else if *has_sender && *from_user_chat {
                UpdateAction::Ingest
            } else {
                UpdateAction::Discard
            }
        },
        UpdateEvent::OtherUpdate => UpdateAction::Discard,
    }
}

/// The one-to-one conversations among an enumeration, in order.
pub open spec fn user_chats_spec(convs: Seq<Conversation>) -> Seq<Conversation>
    decreases convs.len(),
{
    if convs.len() == 0 {
        Seq::<Conversation>::empty()
    } else if convs.last().is_user {
        user_chats_spec(convs.drop_last()).push(convs.last())
    } else {
        user_chats_spec(convs.drop_last())
    }
}

/// Keeps only one-to-one conversations: only those are archived.
pub fn filter_user_chats(convs: &Vec<Conversation>) -> (r: Vec<Conversation>)
    ensures
        r@ == user_chats_spec(convs@),
{
    let n = convs.len();
    let mut r: Vec<Conversation> = Vec::new();
    let mut i: usize = 0;
    while i < n
        invariant
            n == convs@.len(),
            i <= n,
            r@ == user_chats_spec(convs@.take(i as int)),
        decreases n - i,
    {
        proof {
            assert(convs@.take(i + 1).drop_last() =~= convs@.take(i as int));
            assert(convs@.take(i + 1).last() == convs@[i as int]);
        }
        if convs[i].is_user {
            r.push(convs[i].duplicate());
        }
        i += 1;
    }
    proof {
        assert(convs@.take(n as int) =~= convs@);
    }
    r
}

} // verus!
