//! The mailbox: a queue of written records between the callers that emit
//! events and the one sender that ships them.
//!
//! It has a fixed capacity. A payload that finds the mailbox full is
//! dropped; nothing is kept of it, and no caller ever waits. Payloads leave
//! in the order in which they were accepted.

use vstd::prelude::*;
use std::collections::VecDeque;

verus! {

/// What became of a payload.
#[derive(Clone, Copy, Debug, PartialEq, Eq, Structural)]
pub enum SendOutcome {
    /// The payload waits in the mailbox.
    Accepted,
    /// The payload is lost.
    Dropped,
}

/// What the receiving side finds.
#[derive(Debug)]
pub enum Received {
    /// The payload that has waited longest.
    Payload(Vec<u8>),
    /// Nothing waits, and more may come.
    Empty,
    /// Nothing waits, and nothing will come: the mailbox has been closed.
    Closed,
}

/// The model of a mailbox.
pub struct MailboxView {
    pub capacity: nat,
    /// The payloads that wait, the one that has waited longest first.
    pub queue: Seq<Seq<u8>>,
    pub closed: bool,
}

impl MailboxView {
    /// The capacity is at least one, and no more payloads wait than it
    /// allows.
    pub open spec fn wf(self) -> bool {
        1 <= self.capacity && self.queue.len() <= self.capacity
    }

    /// A payload that is sent now is accepted.
    pub open spec fn accepts(self) -> bool {
        !self.closed && self.queue.len() < self.capacity
    }

    /// The mailbox after `payload` has been sent.
    pub open spec fn sent(self, payload: Seq<u8>) -> MailboxView {
        if self.accepts() {
            MailboxView { queue: self.queue.push(payload), ..self }
        } else {
            self
        }
    }

    /// The mailbox after the payloads have been sent one after the other.
    pub open spec fn sent_all(self, payloads: Seq<Seq<u8>>) -> MailboxView
        decreases payloads.len(),
    {
        if payloads.len() == 0 {
            self
        } else {
            self.sent_all(payloads.drop_last()).sent(payloads.last())
        }
    }

    /// The mailbox after one payload has been received, if one waited.
    pub open spec fn received(self) -> MailboxView {
        if self.queue.len() > 0 {
            MailboxView { queue: self.queue.drop_first(), ..self }
        } else {
            self
        }
    }

    /// The mailbox after `count` payloads have been received, or all that
    /// waited if they were fewer.
    pub open spec fn received_times(self, count: nat) -> MailboxView
        decreases count,
    {
        if count == 0 {
            self
        } else {
            self.received_times((count - 1) as nat).received()
        }
    }

    /// The mailbox after it has been closed.
    pub open spec fn shut(self) -> MailboxView {
        MailboxView { closed: true, ..self }
    }
}

/// The views of the payloads.
pub open spec fn payloads_view(payloads: Seq<Vec<u8>>) -> Seq<Seq<u8>> {
    payloads.map_values(|p: Vec<u8>| p@)
}

/// Calls `VecDeque::try_reserve_exact`, which sets room aside for that many
/// more elements or, where it cannot, says so and leaves the queue alone.
/// Assumed, as its documentation says: the elements stay as they are.
#[verifier::external_body]
fn set_aside(queue: &mut VecDeque<Vec<u8>>, room: usize)
    ensures
        final(queue)@ == old(queue)@,
{
    let _ = queue.try_reserve_exact(room);
}

/// A bounded queue of payloads.
#[derive(Debug)]
pub struct Mailbox {
    capacity: usize,
    queue: VecDeque<Vec<u8>>,
    closed: bool,
}

impl View for Mailbox {
    type V = MailboxView;

    closed spec fn view(&self) -> MailboxView {
        MailboxView {
            capacity: self.capacity as nat,
            queue: payloads_view(self.queue@),
            closed: self.closed,
        }
    }
}

impl Mailbox {
    #[verifier::type_invariant]
    pub open spec fn inv(self) -> bool {
        self@.wf()
    }

    /// An open, empty mailbox for one payload, which costs nothing to make.
    pub(crate) fn vacant() -> (r: Mailbox)
        ensures
            r@ == (MailboxView { capacity: 1, queue: Seq::empty(), closed: false }),
    {
        let queue: VecDeque<Vec<u8>> = VecDeque::new();
        assert(payloads_view(queue@) =~= Seq::empty());
        Mailbox { capacity: 1, queue, closed: false }
    }

    /// An open, empty mailbox of the given capacity. Room for that many
    /// payloads is set aside at once, as far as memory allows, so that the
    /// queue need not grow while it is in use.
    pub fn new(capacity: usize) -> (r: Mailbox)
        requires
            1 <= capacity,
        ensures
            r@ == (MailboxView { capacity: capacity as nat, queue: Seq::empty(), closed: false }),
            r@.wf(),
    {
        let mut queue: VecDeque<Vec<u8>> = VecDeque::new();
        set_aside(&mut queue, capacity);
        assert(payloads_view(queue@) =~= Seq::empty());
        Mailbox { capacity, queue, closed: false }
    }

    /// The capacity the mailbox was made with.
    pub fn capacity(&self) -> (r: usize)
        ensures
            r == self@.capacity,
            r >= 1,
    {
        proof {
            use_type_invariant(self);
        }
        self.capacity
    }

    /// The number of payloads that wait; never more than the capacity.
    pub fn len(&self) -> (r: usize)
        ensures
            r == self@.queue.len(),
            self@.wf(),
    {
        proof {
            use_type_invariant(self);
        }
        self.queue.len()
    }

    /// Whether the mailbox has been closed.
    pub fn is_closed(&self) -> (r: bool)
        ensures
            r == self@.closed,
    {
        self.closed
    }

    /// Puts the payload behind those that wait, or drops it where the
    /// mailbox is full or closed. A dropped payload leaves no trace: the
    /// mailbox is as it was.
    pub fn try_send(&mut self, payload: Vec<u8>) -> (r: SendOutcome)
        ensures
            final(self)@ == old(self)@.sent(payload@),
            final(self)@.wf(),
            r == SendOutcome::Accepted <==> old(self)@.accepts(),
    {
        proof {
            use_type_invariant(&*self);
        }
        if self.closed || self.queue.len() >= self.capacity {
            SendOutcome::Dropped
        } else {
            let ghost before = self.queue@;
            let mut queue: VecDeque<Vec<u8>> = VecDeque::new();
            std::mem::swap(&mut self.queue, &mut queue);
            queue.push_back(payload);
            std::mem::swap(&mut self.queue, &mut queue);
            assert(payloads_view(self.queue@) =~= payloads_view(before).push(payload@));
            SendOutcome::Accepted
        }
    }

    /// Takes the payload that has waited longest. Where none waits, says
    /// whether more may come.
    pub fn recv(&mut self) -> (r: Received)
        ensures
            final(self)@ == old(self)@.received(),
            final(self)@.wf(),
            match r {
                Received::Payload(payload) => old(self)@.queue.len() > 0 && payload@ == old(
                    self,
                )@.queue[0],
                Received::Empty => old(self)@.queue.len() == 0 && !old(self)@.closed,
                Received::Closed => old(self)@.queue.len() == 0 && old(self)@.closed,
            },
    {
        proof {
            use_type_invariant(&*self);
        }
        let ghost before = self.queue@;
        let mut queue: VecDeque<Vec<u8>> = VecDeque::new();
        std::mem::swap(&mut self.queue, &mut queue);
        let first = queue.pop_front();
        std::mem::swap(&mut self.queue, &mut queue);
        match first {
            Some(payload) => {
                assert(payloads_view(self.queue@) =~= payloads_view(before).drop_first());
                Received::Payload(payload)
            },
            None => {
                assert(self.queue@ =~= before);
                if self.closed {
                    Received::Closed
                } else {
                    Received::Empty
                }
            },
        }
    }

    /// Closes the mailbox: from now on every payload is dropped. What waits
    /// can still be received.
    pub fn close(&mut self)
        ensures
            final(self)@ == old(self)@.shut(),
    {
        proof {
            use_type_invariant(&*self);
        }
        self.closed = true;
    }
}

/// The number of payloads that an open mailbox still has room for.
pub open spec fn room(mailbox: MailboxView) -> nat {
    (mailbox.capacity - mailbox.queue.len()) as nat
}

/// The smaller of two numbers.
pub open spec fn at_most(n: nat, limit: nat) -> nat {
    if n <= limit {
        n
    } else {
        limit
    }
}

/// Sending never makes more payloads wait than the capacity allows.
pub proof fn lemma_sent_keeps_bound(mailbox: MailboxView, payload: Seq<u8>)
    requires
        mailbox.wf(),
    ensures
        mailbox.sent(payload).wf(),
        mailbox.sent(payload).capacity == mailbox.capacity,
        mailbox.sent(payload).closed == mailbox.closed,
{
}

/// Of payloads that are sent in a row to an open mailbox, those for which
/// there is room are accepted, in their order, and all the others are
/// dropped. However many are sent, no more wait than the capacity allows.
pub proof fn lemma_overflow_is_dropped(mailbox: MailboxView, payloads: Seq<Seq<u8>>)
    requires
        mailbox.wf(),
        !mailbox.closed,
    ensures
        mailbox.sent_all(payloads).wf(),
        mailbox.sent_all(payloads).capacity == mailbox.capacity,
        !mailbox.sent_all(payloads).closed,
        mailbox.sent_all(payloads).queue == mailbox.queue + payloads.take(
            at_most(payloads.len(), room(mailbox)) as int,
        ),
    decreases payloads.len(),
{
    if payloads.len() == 0 {
        assert(mailbox.queue =~= mailbox.queue + payloads.take(0));
    } else {
        let front = payloads.drop_last();
        lemma_overflow_is_dropped(mailbox, front);
        let before = mailbox.sent_all(front);
        let kept = at_most(front.len(), room(mailbox));
        assert(before.queue == mailbox.queue + front.take(kept as int));
        if front.len() < room(mailbox) {
            assert(before.accepts());
            assert(front.take(kept as int) =~= front);
            assert(payloads.take(payloads.len() as int) =~= payloads);
            assert(before.sent(payloads.last()).queue =~= mailbox.queue + payloads);
        } else {
            assert(!before.accepts());
            assert(front.take(kept as int) =~= payloads.take(room(mailbox) as int));
        }
    }
}

/// A closed mailbox drops whatever is sent.
pub proof fn lemma_closed_drops(mailbox: MailboxView, payloads: Seq<Seq<u8>>)
    requires
        mailbox.closed,
    ensures
        mailbox.sent_all(payloads) == mailbox,
    decreases payloads.len(),
{
    if payloads.len() > 0 {
        lemma_closed_drops(mailbox, payloads.drop_last());
    }
}

/// A full mailbox drops the payload and is as it was.
pub proof fn lemma_full_drops(mailbox: MailboxView, payload: Seq<u8>)
    requires
        mailbox.queue.len() >= mailbox.capacity,
    ensures
        !mailbox.accepts(),
        mailbox.sent(payload) == mailbox,
{
}

/// Receiving takes the payloads from the front, as many as were asked for
/// or as many as waited.
pub proof fn lemma_received_from_front(mailbox: MailboxView, count: nat)
    ensures
        mailbox.received_times(count).queue == mailbox.queue.skip(
            at_most(count, mailbox.queue.len()) as int,
        ),
        mailbox.received_times(count).capacity == mailbox.capacity,
        mailbox.received_times(count).closed == mailbox.closed,
    decreases count,
{
    if count == 0 {
        assert(mailbox.queue =~= mailbox.queue.skip(0));
    } else {
        lemma_received_from_front(mailbox, (count - 1) as nat);
        let before = mailbox.received_times((count - 1) as nat);
        let taken = at_most((count - 1) as nat, mailbox.queue.len());
        if before.queue.len() > 0 {
            assert(before.queue.drop_first() =~= mailbox.queue.skip(taken as int + 1));
        } else {
            assert(before.queue =~= mailbox.queue.skip(mailbox.queue.len() as int));
        }
    }
}

/// Two payloads that are both accepted leave in the order in which they
/// were sent, whatever is received between the two sends: when the second
/// has been accepted, the first either stands right before it at the end
/// of the queue or has left already.
pub proof fn lemma_order_is_kept(
    mailbox: MailboxView,
    first: Seq<u8>,
    between: nat,
    second: Seq<u8>,
)
    requires
        mailbox.wf(),
        mailbox.accepts(),
        mailbox.sent(first).received_times(between).accepts(),
    ensures
        ({
            let later = mailbox.sent(first).received_times(between);
            let last = later.sent(second);
            &&& last.wf()
            &&& last.queue.last() == second
            &&& if between <= mailbox.queue.len() {
                last.queue == mailbox.queue.skip(between as int) + seq![first, second]
            } else {
                last.queue == seq![second]
            }
        }),
{
    let after = mailbox.sent(first);
    lemma_received_from_front(after, between);
    let later = after.received_times(between);
    let last = later.sent(second);
    if between <= mailbox.queue.len() {
        assert(last.queue =~= mailbox.queue.skip(between as int) + seq![first, second]);
    } else {
        assert(last.queue =~= seq![second]);
    }
}

} // verus!
