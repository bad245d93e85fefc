//! A writer that ships what is written to it over UDP.
//!
//! Every write is one payload: it is put into a mailbox, from which a
//! background sender takes it. The writer never waits for the network.

use vstd::prelude::*;
use vstd::slice::slice_to_vec;
use crate::mailbox::{lemma_overflow_is_dropped, Mailbox, MailboxView, SendOutcome};
use crate::shipper::{
    action_view, datagrams, lemma_run_sends_in_order, polled, rounds, Action, Family, Outcome,
    OutcomeView, Phase, Shipper, ShipperView, DEFAULT_TIMEOUT, MAX_DATAGRAM,
};
use crate::vinted_udp_logger::DEFAULT_BUFFER;

verus! {

/// The side of the writer that takes the bytes.
#[derive(Debug)]
pub struct WriterImpl {
    sender: Mailbox,
}

impl View for WriterImpl {
    type V = MailboxView;

    /// The mailbox behind the writer.
    closed spec fn view(&self) -> MailboxView {
        self.sender@
    }
}

impl WriterImpl {
    /// Hands the bytes to the mailbox as one payload and says how many
    /// bytes were taken: all of them, also where the mailbox dropped them.
    pub fn write(&mut self, buf: &[u8]) -> (r: usize)
        ensures
            r == buf@.len(),
            final(self)@ == old(self)@.sent(buf@),
            final(self)@.wf(),
    {
        let _ = self.sender.try_send(slice_to_vec(buf));
        buf.len()
    }

    /// Does nothing: the mailbox holds what was written.
    pub fn flush(&mut self)
        ensures
            final(self)@ == old(self)@,
    {
    }
}

/// The model of a writer.
pub struct WriterView {
    /// Where the payloads are shipped to.
    pub address: Seq<char>,
    pub mailbox: MailboxView,
    pub shipper: ShipperView,
}

/// A writer for one destination, with the mailbox and the decisions of its
/// background sender.
#[derive(Debug)]
pub struct VintedUdpWriter {
    writer: WriterImpl,
    addr: &'static str,
    shipper: Shipper,
}

impl View for VintedUdpWriter {
    type V = WriterView;

    closed spec fn view(&self) -> WriterView {
        WriterView { address: self.addr@, mailbox: self.writer@, shipper: self.shipper@ }
    }
}

impl VintedUdpWriter {
    /// A new writer for the given address: its mailbox is empty and open,
    /// and its sender is about to resolve the address.
    pub open spec fn new_spec(address: Seq<char>) -> WriterView {
        WriterView {
            address,
            mailbox: MailboxView {
                capacity: DEFAULT_BUFFER as nat,
                queue: Seq::empty(),
                closed: false,
            },
            shipper: ShipperView {
                phase: Phase::Resolving,
                families: Seq::empty(),
                current: 0,
                backoff: DEFAULT_TIMEOUT as u64,
                limit: MAX_DATAGRAM as nat,
            },
        }
    }

    /// A writer for the given address.
    pub fn new(addr: &'static str) -> (r: Self)
        ensures
            r@ == Self::new_spec(addr@),
    {
        Self {
            writer: WriterImpl { sender: Mailbox::new(DEFAULT_BUFFER) },
            addr,
            shipper: Shipper::new(DEFAULT_TIMEOUT as u64, MAX_DATAGRAM),
        }
    }

    /// The address that the payloads are shipped to.
    pub fn address(&self) -> (r: &'static str)
        ensures
            r@ == self@.address,
    {
        self.addr
    }

    /// Hands the bytes to the mailbox as one payload; see
    /// [`WriterImpl::write`].
    pub fn write(&mut self, buf: &[u8]) -> (r: usize)
        ensures
            r == buf@.len(),
            final(self)@ == (WriterView { mailbox: old(self)@.mailbox.sent(buf@), ..old(self)@ }),
    {
        self.writer.write(buf)
    }

    /// Closes the mailbox: the sender stops once it has sent what waits.
    pub fn close(&mut self)
        ensures
            final(self)@ == (WriterView { mailbox: old(self)@.mailbox.shut(), ..old(self)@ }),
    {
        self.writer.sender.close();
    }

    /// Lets the sender look into the mailbox for the payload to send next.
    pub fn ship(&mut self) -> (action: Option<Action>)
        ensures
            final(self)@.address == old(self)@.address,
            (final(self)@.shipper, final(self)@.mailbox, action_view(action)) == polled(
                old(self)@.shipper,
                old(self)@.mailbox,
            ),
    {
        self.shipper.poll(&mut self.writer.sender)
    }

    /// Tells the sender what came of its last action and names the next
    /// one.
    pub fn step(&mut self, outcome: Outcome) -> (action: Action)
        ensures
            final(self)@.address == old(self)@.address,
            final(self)@.mailbox == old(self)@.mailbox,
            (final(self)@.shipper, action@) == old(self)@.shipper.next(outcome@),
    {
        self.shipper.step(outcome)
    }
}

/// What is written to a new writer is sent in the order in which it was
/// written. Where no more is written than the mailbox holds, the
/// destination resolves, the endpoint is bound and every send succeeds, the
/// datagrams that the sender hands over are the writes, each once,
/// unchanged, in their order, to the first address; only a write too long
/// for a datagram is left out. After that nothing waits.
pub proof fn lemma_writes_are_sent_in_order(
    address: Seq<char>,
    writes: Seq<Seq<u8>>,
    families: Seq<Family>,
)
    requires
        writes.len() <= DEFAULT_BUFFER,
        families.len() > 0,
    ensures
        ({
            let writer = VintedUdpWriter::new_spec(address);
            let mailbox = writer.mailbox.sent_all(writes);
            let bound = writer.shipper.next(OutcomeView::Resolved { families }).0.next(
                OutcomeView::Bound,
            ).0;
            let run = rounds(bound, mailbox, writes.len());
            &&& mailbox.queue == writes
            &&& bound.phase == Phase::Connected
            &&& run.2 == datagrams(writes, MAX_DATAGRAM as nat, 0)
            &&& run.1.queue.len() == 0
        }),
{
    let writer = VintedUdpWriter::new_spec(address);
    lemma_overflow_is_dropped(writer.mailbox, writes);
    let mailbox = writer.mailbox.sent_all(writes);
    assert(writes.take(writes.len() as int) =~= writes);
    assert(mailbox.queue =~= writes);
    let bound = writer.shipper.next(OutcomeView::Resolved { families }).0.next(
        OutcomeView::Bound,
    ).0;
    lemma_run_sends_in_order(bound, mailbox, writes.len());
    assert(mailbox.queue.take(writes.len() as int) =~= writes);
}

} // verus!
