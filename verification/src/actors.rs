//! The two roles of the relay: the ground station, which manufactures and
//! posts messages, and the satellites, which pull messages addressed to
//! their own identifier.

use vstd::prelude::*;

use crate::mailbox::delivered;
use crate::mailbox::remaining;
use crate::mailbox::MailBox;
use crate::mailbox::Message;

verus! {

/// The receiving role: an identity-bearing value, freely copyable.
#[derive(Debug, Clone, Copy)]
pub struct CubeSat {
    pub id: u64,
}

impl CubeSat {
    /// Pulls the earliest queued message addressed to this satellite's own
    /// identifier out of `mailbox`, if there is one. The satellite itself
    /// is untouched; only the mailbox changes.
    pub fn recv(&self, mailbox: &mut MailBox) -> (r: Option<Message>)
        ensures
            r == delivered(old(mailbox)@, self.id),
            final(mailbox)@ == remaining(old(mailbox)@, self.id),
    {
        mailbox.deliver(self)
    }
}

/// The sending role: a read-only configuration holder. The radio frequency
/// is kept in kilohertz so that it stays a plain integer.
#[derive(Debug, Clone, Copy)]
pub struct GroundStation {
    pub radio_freq_khz: u64,
}

impl GroundStation {
    /// A pure factory: builds the satellite value named by `sat_id`. Total,
    /// with no side effect; the station's own state plays no part.
    pub fn connect(&self, sat_id: u64) -> (r: CubeSat)
        ensures
            r == (CubeSat { id: sat_id }),
    {
        CubeSat { id: sat_id }
    }

    /// Queues `msg` in `mailbox` on behalf of this station. The recipient
    /// identifier is not validated: a message addressed to no satellite is
    /// simply never delivered.
    pub fn send(&self, mailbox: &mut MailBox, msg: Message)
        ensures
            final(mailbox)@ == old(mailbox)@.push(msg),
    {
        mailbox.post(msg);
    }
}

/// The fixed identifiers the simulation runs over.
pub fn fetch_sat_ids() -> (r: Vec<u64>)
    ensures
        r@ == seq![1u64, 2u64, 3u64],
{
    let mut v: Vec<u64> = Vec::new();
    v.push(1);
    v.push(2);
    v.push(3);
    proof {
        assert(v@ =~= seq![1u64, 2u64, 3u64]);
    }
    v
}

/// Connecting twice to the same identifier yields equal satellite values:
/// a satellite is nothing but its identifier.
pub proof fn lemma_connect_deterministic(a: CubeSat, b: CubeSat)
    requires
        a.id == b.id,
    ensures
        a == b,
{
}

/// Building two messages from the same recipient and the same content
/// yields equal message values: a message is nothing but those two fields.
pub proof fn lemma_message_deterministic(a: Message, b: Message)
    requires
        a.to == b.to,
        a.content == b.content,
    ensures
        a == b,
{
}

} // verus!
