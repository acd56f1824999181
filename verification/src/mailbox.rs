//! The mailbox: an insertion-ordered queue of messages, mutated only by
//! `post` (append) and `deliver` (remove and return the earliest message
//! addressed to a given identifier).

use vstd::prelude::*;

use crate::actors::CubeSat;

verus! {

/// An immutable record: a recipient identifier and a text payload.
#[derive(Debug)]
pub struct Message {
    pub to: u64,
    pub content: String,
}

impl Message {
    /// Construction is total: any identifier and any content are accepted.
    pub fn new(to: u64, content: String) -> (r: Message)
        ensures
            r.to == to,
            r.content == content,
    {
        Message { to, content }
    }
}

/// Whether some queued message is addressed to `id`.
pub open spec fn has_message_for(s: Seq<Message>, id: u64) -> bool {
    exists|j: int| 0 <= j < s.len() && s[j].to == id
}

/// The position of the earliest message addressed to `id`, or `s.len()`
/// when no queued message matches.
pub open spec fn first_index_for(s: Seq<Message>, id: u64) -> int
    decreases s.len(),
{
    if s.len() == 0 {
        0
    } else if s[0].to == id {
        0
    } else {
        1 + first_index_for(s.drop_first(), id)
    }
}

/// What a delivery attempt for `id` returns on a queue `s`: the earliest
/// matching message, or nothing.
pub open spec fn delivered(s: Seq<Message>, id: u64) -> Option<Message> {
    if has_message_for(s, id) {
        Some(s[first_index_for(s, id)])
    } else {
        None
    }
}

/// The queue left behind by a delivery attempt for `id` on a queue `s`:
/// the earliest matching message is removed in place, so every other
/// message keeps its relative position; without a match, `s` itself.
pub open spec fn remaining(s: Seq<Message>, id: u64) -> Seq<Message> {
    if has_message_for(s, id) {
        s.remove(first_index_for(s, id))
    } else {
        s
    }
}

/// `first_index_for` names the earliest match: it stays within bounds, it
/// lands on a message addressed to `id` exactly when one is queued, and no
/// earlier position matches.
pub proof fn lemma_first_index_for(s: Seq<Message>, id: u64)
    ensures
        0 <= first_index_for(s, id) <= s.len(),
        has_message_for(s, id) <==> first_index_for(s, id) < s.len(),
        first_index_for(s, id) < s.len() ==> s[first_index_for(s, id)].to == id,
        forall|j: int| 0 <= j < first_index_for(s, id) ==> s[j].to != id,
    decreases s.len(),
{
    if s.len() == 0 {
    } else if s[0].to == id {
    } else {
        let t = s.drop_first();
        lemma_first_index_for(t, id);
        assert forall|j: int| 0 <= j < t.len() && t[j].to == id implies has_message_for(
            s,
            id,
        ) by {
            assert(s[j + 1].to == id);
        }
        if has_message_for(s, id) {
            let w = choose|j: int| 0 <= j < s.len() && s[j].to == id;
            assert(t[w - 1].to == id);
        }
        assert forall|j: int| 0 <= j < first_index_for(s, id) implies s[j].to != id by {
            if j > 0 {
                assert(t[j - 1].to != id);
                assert(s[j] == t[j - 1]);
            }
        }
    }
}

/// When at least one queued message is addressed to `id`, a delivery
/// attempt returns exactly the earliest-queued such message and removes
/// it in place, so all other messages retain their relative order.
pub proof fn lemma_deliver_first_match(s: Seq<Message>, id: u64)
    requires
        has_message_for(s, id),
    ensures
        ({
            let i = first_index_for(s, id);
            &&& 0 <= i < s.len()
            &&& s[i].to == id
            &&& forall|j: int| 0 <= j < i ==> s[j].to != id
            &&& delivered(s, id) == Some(s[i])
            &&& remaining(s, id) == s.subrange(0, i) + s.subrange(i + 1, s.len() as int)
        }),
{
    lemma_first_index_for(s, id);
    let i = first_index_for(s, id);
    assert(s.remove(i) =~= s.subrange(0, i) + s.subrange(i + 1, s.len() as int));
}

/// A delivery attempt on a queue with no message addressed to `id` — the
/// empty queue in particular — returns nothing and leaves the queue
/// element-for-element unchanged.
pub proof fn lemma_deliver_no_match(s: Seq<Message>, id: u64)
    requires
        forall|j: int| 0 <= j < s.len() ==> s[j].to != id,
    ensures
        delivered(s, id) is None,
        remaining(s, id) == s,
{
}

/// A delivery attempt never loses or duplicates a message: putting what it
/// returned back beside what stayed queued gives, as a multiset, exactly
/// what was queued before.
pub proof fn lemma_delivery_conserves_messages(s: Seq<Message>, id: u64)
    ensures
        delivered(s, id) matches Some(m) ==> remaining(s, id).to_multiset().insert(m)
            == s.to_multiset(),
        delivered(s, id) is None ==> remaining(s, id) == s,
{
    if has_message_for(s, id) {
        lemma_first_index_for(s, id);
        let i = first_index_for(s, id);
        s.to_multiset_ensures();
        assert(s.contains(s[i]));
        assert(s.remove(i).to_multiset() =~= s.to_multiset().remove(s[i]));
        assert(s.to_multiset().remove(s[i]).insert(s[i]) =~= s.to_multiset());
    }
}

/// The queue after `n` successive delivery attempts for `id` on `s`.
pub open spec fn after_deliveries(s: Seq<Message>, id: u64, n: nat) -> Seq<Message>
    decreases n,
{
    if n == 0 {
        s
    } else {
        remaining(after_deliveries(s, id, (n - 1) as nat), id)
    }
}

/// After `k` deliveries for `id` on a queue whose every message is
/// addressed to `id`, the front `k` messages are gone and the rest stand
/// in their original order.
proof fn lemma_drain_prefix(s: Seq<Message>, id: u64, k: nat)
    requires
        forall|j: int| 0 <= j < s.len() ==> s[j].to == id,
        k <= s.len(),
    ensures
        after_deliveries(s, id, k) == s.subrange(k as int, s.len() as int),
    decreases k,
{
    if k == 0 {
        assert(s.subrange(0, s.len() as int) =~= s);
    } else {
        lemma_drain_prefix(s, id, (k - 1) as nat);
        let t = s.subrange(k - 1, s.len() as int);
        assert(t[0].to == id);
        assert(has_message_for(t, id));
        lemma_first_index_for(t, id);
        assert(first_index_for(t, id) == 0);
        assert(t.remove(0) =~= s.subrange(k as int, s.len() as int));
    }
}

/// Queueing `n` messages all addressed to `id` and then attempting `n`
/// deliveries for `id` hands them out one per call, in the order they were
/// queued; the attempt after that returns nothing.
pub proof fn lemma_fifo_drain(s: Seq<Message>, id: u64)
    requires
        forall|j: int| 0 <= j < s.len() ==> s[j].to == id,
    ensures
        forall|k: nat|
            k < s.len() ==> delivered(after_deliveries(s, id, k), id) == Some(s[k as int]),
        after_deliveries(s, id, s.len()) == Seq::<Message>::empty(),
        delivered(after_deliveries(s, id, s.len()), id) is None,
{
    assert forall|k: nat| k < s.len() implies delivered(after_deliveries(s, id, k), id) == Some(
        s[k as int],
    ) by {
        lemma_drain_prefix(s, id, k);
        let t = s.subrange(k as int, s.len() as int);
        assert(t[0].to == id);
        assert(has_message_for(t, id));
        lemma_first_index_for(t, id);
        assert(first_index_for(t, id) == 0);
    }
    lemma_drain_prefix(s, id, s.len());
    assert(after_deliveries(s, id, s.len()) =~= Seq::<Message>::empty());
    lemma_deliver_no_match(after_deliveries(s, id, s.len()), id);
}

/// The queue of messages currently in flight, in insertion order.
#[derive(Debug)]
pub struct MailBox {
    messages: Vec<Message>,
}

impl View for MailBox {
    type V = Seq<Message>;

    closed spec fn view(&self) -> Seq<Message> {
        self.messages@
    }
}

impl MailBox {
    /// An empty mailbox.
    pub fn new() -> (r: MailBox)
        ensures
            r@ == Seq::<Message>::empty(),
    {
        MailBox { messages: Vec::new() }
    }

    /// How many messages are queued.
    pub fn len(&self) -> (n: usize)
        ensures
            n == self@.len(),
    {
        self.messages.len()
    }

    /// Appends `msg` to the end of the queue; never fails.
    pub fn post(&mut self, msg: Message)
        ensures
            final(self)@ == old(self)@.push(msg),
    {
        self.messages.push(msg);
    }

    /// Scans from the front of the queue and removes and returns the first
    /// message addressed to `recipient`; every other message keeps its
    /// relative position. Without a match, returns nothing and leaves the
    /// queue unchanged.
    pub fn deliver(&mut self, recipient: &CubeSat) -> (r: Option<Message>)
        ensures
            r == delivered(old(self)@, recipient.id),
            final(self)@ == remaining(old(self)@, recipient.id),
    {
        let ghost s = self@;
        let mut i: usize = 0;
        while i < self.messages.len()
            invariant
                s == old(self)@,
                self@ == s,
                i <= s.len(),
                forall|j: int| 0 <= j < i ==> s[j].to != recipient.id,
            decreases s.len() - i,
        {
            if self.messages[i].to == recipient.id {
                proof {
                    lemma_first_index_for(s, recipient.id);
                    assert(has_message_for(s, recipient.id));
                    assert(first_index_for(s, recipient.id) == i);
                }
                let msg = self.messages.remove(i);
                return Some(msg);
            }
            i = i + 1;
        }
        proof {
            lemma_first_index_for(s, recipient.id);
            assert(!has_message_for(s, recipient.id));
        }
        None
    }
}

} // verus!
