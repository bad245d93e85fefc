//! The shipper: the decisions of the background sender.
//!
//! The sender resolves the destination, binds a local endpoint for one of
//! the addresses it got, and then sends what the mailbox hands it, one
//! datagram for each payload. The waiting and the network are the caller's:
//! the caller performs the action that the shipper names and reports what
//! came of it, and the shipper names the next action.

use vstd::prelude::*;
use crate::mailbox::{Mailbox, MailboxView, Received};

verus! {

/// The time to wait after a failure before resolving again, in
/// milliseconds.
pub const DEFAULT_TIMEOUT: u32 = 10_000;

/// The time for which a resolved address is used before the destination is
/// resolved anew, in milliseconds.
pub const DEFAULT_REFRESH: u32 = 60_000;

/// The largest payload that fits one datagram.
pub const MAX_DATAGRAM: usize = 65_507;

/// The address family of a resolved address.
#[derive(Clone, Copy, Debug, PartialEq, Eq, Structural)]
pub enum Family {
    V4,
    V6,
}

/// Why a datagram was not sent.
#[derive(Clone, Copy, Debug, PartialEq, Eq, Structural)]
pub enum SendFault {
    /// The call was interrupted.
    Interrupted,
    /// The endpoint could not take the datagram at once.
    WouldBlock,
    /// The call took too long.
    TimedOut,
    /// Anything else: the endpoint or the path will not serve any longer.
    Other,
}

impl SendFault {
    /// The fault says that the endpoint or the path will not serve any
    /// longer. The three passing faults do not.
    pub open spec fn unusable(self) -> bool {
        self == SendFault::Other
    }

    /// Whether the endpoint is to be given up after this fault.
    pub fn is_unusable(self) -> (r: bool)
        ensures
            r == self.unusable(),
    {
        match self {
            SendFault::Other => true,
            _ => false,
        }
    }
}

/// The local address to bind for a destination of the given family: the
/// unspecified address of that family, with a port that the system picks.
pub open spec fn bind_address_of(family: Family) -> Seq<char> {
    match family {
        Family::V4 => "0.0.0.0:0"@,
        Family::V6 => "[::]:0"@,
    }
}

/// The local address to bind for a destination of the given family.
pub fn bind_address(family: Family) -> (r: &'static str)
    ensures
        r@ == bind_address_of(family),
{
    match family {
        Family::V4 => "0.0.0.0:0",
        Family::V6 => "[::]:0",
    }
}

/// Where the shipper stands.
#[derive(Clone, Copy, Debug, PartialEq, Eq, Structural)]
pub enum Phase {
    /// The destination is being resolved.
    Resolving,
    /// The shipper waits before it resolves again.
    Backoff,
    /// A local endpoint is being bound for the current address.
    Binding,
    /// The endpoint is bound; the shipper waits for a payload.
    Connected,
    /// A payload is being sent.
    Sending,
    /// The mailbox is closed and drained; nothing is left to do.
    Stopped,
}

/// What the caller is to do next.
#[derive(Debug)]
pub enum Action {
    /// Resolve the destination; report `Resolved` or `ResolutionFailed`.
    Resolve,
    /// Wait that many milliseconds; report `Elapsed`.
    Sleep { millis: u64 },
    /// Bind the local endpoint that `bind_address` names for that family;
    /// report `Bound` or `BindFailed`.
    Bind { family: Family },
    /// Wait for a payload; report `Payload`, `Closed`, or `RefreshDue` when
    /// the endpoint has been bound for `DEFAULT_REFRESH` milliseconds.
    Receive,
    /// Send the payload as one datagram to the address at that position
    /// among the resolved ones; report `Sent` or `SendFailed`.
    Send { payload: Vec<u8>, address: usize },
    /// Stop: the pipeline has shut down.
    Stop,
}

/// What came of the last action.
#[derive(Debug)]
pub enum Outcome {
    /// The destination resolved to these addresses, of which only the
    /// families matter here. There may be none.
    Resolved { families: Vec<Family> },
    ResolutionFailed,
    Elapsed,
    Bound,
    BindFailed,
    Payload { payload: Vec<u8> },
    /// The mailbox is closed and drained.
    Closed,
    RefreshDue,
    Sent,
    /// The datagram was not sent.
    SendFailed { fault: SendFault },
}

/// The model of an action.
pub enum ActionView {
    Resolve,
    Sleep { millis: u64 },
    Bind { family: Family },
    Receive,
    Send { payload: Seq<u8>, address: nat },
    Stop,
}

/// The model of an outcome.
pub enum OutcomeView {
    Resolved { families: Seq<Family> },
    ResolutionFailed,
    Elapsed,
    Bound,
    BindFailed,
    Payload { payload: Seq<u8> },
    Closed,
    RefreshDue,
    Sent,
    SendFailed { fault: SendFault },
}

impl View for Action {
    type V = ActionView;

    open spec fn view(&self) -> ActionView {
        match *self {
            Action::Resolve => ActionView::Resolve,
            Action::Sleep { millis } => ActionView::Sleep { millis },
            Action::Bind { family } => ActionView::Bind { family },
            Action::Receive => ActionView::Receive,
            Action::Send { payload, address } => ActionView::Send {
                payload: payload@,
                address: address as nat,
            },
            Action::Stop => ActionView::Stop,
        }
    }
}

impl View for Outcome {
    type V = OutcomeView;

    open spec fn view(&self) -> OutcomeView {
        match *self {
            Outcome::Resolved { families } => OutcomeView::Resolved { families: families@ },
            Outcome::ResolutionFailed => OutcomeView::ResolutionFailed,
            Outcome::Elapsed => OutcomeView::Elapsed,
            Outcome::Bound => OutcomeView::Bound,
            Outcome::BindFailed => OutcomeView::BindFailed,
            Outcome::Payload { payload } => OutcomeView::Payload { payload: payload@ },
            Outcome::Closed => OutcomeView::Closed,
            Outcome::RefreshDue => OutcomeView::RefreshDue,
            Outcome::Sent => OutcomeView::Sent,
            Outcome::SendFailed { fault } => OutcomeView::SendFailed { fault },
        }
    }
}

/// The model of a shipper.
pub struct ShipperView {
    pub phase: Phase,
    /// The families of the addresses of the last resolution.
    pub families: Seq<Family>,
    /// The position of the address in use.
    pub current: nat,
    /// The time to wait after a failure, in milliseconds.
    pub backoff: u64,
    /// The largest payload that is sent.
    pub limit: nat,
}

impl ShipperView {
    /// While an address is in use, it is one of the resolved ones.
    pub open spec fn wf(self) -> bool {
        (self.phase == Phase::Binding || self.phase == Phase::Connected || self.phase
            == Phase::Sending) ==> self.current < self.families.len()
    }

    /// The shipper in another phase.
    pub open spec fn at(self, phase: Phase) -> ShipperView {
        ShipperView { phase, ..self }
    }

    /// The shipper backs off: it waits, then resolves again.
    pub open spec fn backing_off(self) -> (ShipperView, ActionView) {
        (self.at(Phase::Backoff), ActionView::Sleep { millis: self.backoff })
    }

    /// The shipper starts on the address at `position`, or backs off where
    /// there is none.
    pub open spec fn binding(self, families: Seq<Family>, position: nat) -> (
        ShipperView,
        ActionView,
    ) {
        if position < families.len() {
            (
                ShipperView { phase: Phase::Binding, families, current: position, ..self },
                ActionView::Bind { family: families[position as int] },
            )
        } else {
            (ShipperView { families, ..self }).backing_off()
        }
    }

    /// The state after an outcome, and the action to perform next.
    ///
    /// A stopped shipper stays stopped, and in every phase the shipper
    /// stops when it is told that the mailbox is closed and drained. Any
    /// other outcome that the phase does not wait for is taken for a fault:
    /// the shipper backs off.
    pub open spec fn next(self, outcome: OutcomeView) -> (ShipperView, ActionView) {
        match (self.phase, outcome) {
            (Phase::Stopped, _) => (self, ActionView::Stop),
            (_, OutcomeView::Closed) => (self.at(Phase::Stopped), ActionView::Stop),
            (Phase::Resolving, OutcomeView::Resolved { families }) => self.binding(families, 0),
            (Phase::Resolving, OutcomeView::ResolutionFailed) => self.backing_off(),
            (Phase::Backoff, OutcomeView::Elapsed) => (
                self.at(Phase::Resolving),
                ActionView::Resolve,
            ),
            (Phase::Binding, OutcomeView::Bound) => (self.at(Phase::Connected), ActionView::Receive),
            (Phase::Binding, OutcomeView::BindFailed) => self.binding(
                self.families,
                self.current + 1,
            ),
            (Phase::Connected, OutcomeView::Payload { payload }) => if payload.len() <= self.limit {
                (
                    self.at(Phase::Sending),
                    ActionView::Send { payload, address: self.current },
                )
            } else {
                (self, ActionView::Receive)
            },
            (Phase::Connected, OutcomeView::RefreshDue) => (
                self.at(Phase::Resolving),
                ActionView::Resolve,
            ),
            (Phase::Sending, OutcomeView::Sent) => (self.at(Phase::Connected), ActionView::Receive),
            (Phase::Sending, OutcomeView::SendFailed { fault }) => if fault.unusable() {
                (self.at(Phase::Resolving), ActionView::Resolve)
            } else {
                (self.at(Phase::Connected), ActionView::Receive)
            },
            _ => self.backing_off(),
        }
    }
}

/// The decisions of the background sender of one pipeline.
#[derive(Debug)]
pub struct Shipper {
    phase: Phase,
    families: Vec<Family>,
    current: usize,
    backoff: u64,
    limit: usize,
}

impl View for Shipper {
    type V = ShipperView;

    closed spec fn view(&self) -> ShipperView {
        ShipperView {
            phase: self.phase,
            families: self.families@,
            current: self.current as nat,
            backoff: self.backoff,
            limit: self.limit as nat,
        }
    }
}

impl Shipper {
    #[verifier::type_invariant]
    pub open spec fn inv(self) -> bool {
        self@.wf()
    }

    /// A shipper that is about to resolve the destination for the first
    /// time: the first action to perform is `Resolve`.
    pub fn new(backoff: u64, limit: usize) -> (r: Shipper)
        ensures
            r@ == (ShipperView {
                phase: Phase::Resolving,
                families: Seq::empty(),
                current: 0,
                backoff,
                limit: limit as nat,
            }),
            r@.wf(),
    {
        Shipper { phase: Phase::Resolving, families: Vec::new(), current: 0, backoff, limit }
    }

    /// Where the shipper stands.
    pub fn phase(&self) -> (r: Phase)
        ensures
            r == self@.phase,
    {
        self.phase
    }

    /// The shipper backs off.
    fn back_off(&mut self) -> (action: Action)
        ensures
            (final(self)@, action@) == old(self)@.backing_off(),
    {
        proof {
            use_type_invariant(&*self);
        }
        self.phase = Phase::Backoff;
        Action::Sleep { millis: self.backoff }
    }

    /// The shipper starts on the address at `position` among the resolved
    /// ones, or backs off where there is none.
    fn bind(&mut self, position: usize) -> (action: Action)
        requires
            old(self)@.phase == Phase::Resolving || old(self)@.phase == Phase::Binding,
        ensures
            (final(self)@, action@) == old(self)@.binding(old(self)@.families, position as nat),
    {
        proof {
            use_type_invariant(&*self);
        }
        if position < self.families.len() {
            let family = self.families[position];
            self.current = position;
            self.phase = Phase::Binding;
            Action::Bind { family }
        } else {
            self.back_off()
        }
    }

    /// Stops the shipper.
    fn stop(&mut self) -> (action: Action)
        ensures
            final(self)@ == old(self)@.at(Phase::Stopped),
            action@ == ActionView::Stop,
    {
        proof {
            use_type_invariant(&*self);
        }
        self.phase = Phase::Stopped;
        Action::Stop
    }

    /// Takes what came of the last action and names the next one.
    pub fn step(&mut self, outcome: Outcome) -> (action: Action)
        ensures
            (final(self)@, action@) == old(self)@.next(outcome@),
            final(self)@.wf(),
    {
        proof {
            use_type_invariant(&*self);
        }
        if self.phase != Phase::Stopped && says_closed(&outcome) {
            return self.stop();
        }
        match self.phase {
            Phase::Stopped => Action::Stop,
            Phase::Resolving => match outcome {
                Outcome::Resolved { families } => {
                    let mut families = families;
                    std::mem::swap(&mut self.families, &mut families);
                    self.bind(0)
                },
                _ => self.back_off(),
            },
            Phase::Backoff => match outcome {
                Outcome::Elapsed => {
                    self.phase = Phase::Resolving;
                    Action::Resolve
                },
                _ => self.back_off(),
            },
            Phase::Binding => match outcome {
                Outcome::Bound => {
                    self.phase = Phase::Connected;
                    Action::Receive
                },
                Outcome::BindFailed => {
                    assert(self.current < self.families.len());
                    let following: usize = self.current + 1;
                    self.bind(following)
                },
                _ => self.back_off(),
            },
            Phase::Connected => match outcome {
                Outcome::Payload { payload } => {
                    if payload.len() <= self.limit {
                        self.phase = Phase::Sending;
                        Action::Send { payload, address: self.current }
                    } else {
                        Action::Receive
                    }
                },
                Outcome::RefreshDue => {
                    self.phase = Phase::Resolving;
                    Action::Resolve
                },
                _ => self.back_off(),
            },
            Phase::Sending => match outcome {
                Outcome::Sent => {
                    self.phase = Phase::Connected;
                    Action::Receive
                },
                Outcome::SendFailed { fault } => {
                    if fault.is_unusable() {
                        self.phase = Phase::Resolving;
                        Action::Resolve
                    } else {
                        self.phase = Phase::Connected;
                        Action::Receive
                    }
                },
                _ => self.back_off(),
            },
        }
    }

    /// Looks into the mailbox: whether the pipeline has shut down, and
    /// which payload to send next.
    ///
    /// Where the mailbox is closed and drained the shipper stops, whatever
    /// its phase. Otherwise a connected shipper takes the payload that has
    /// waited longest and names the action for it; where nothing waits yet
    /// it names no action, and the caller waits. A shipper that is not
    /// connected leaves an open mailbox alone and names no action.
    ///
    /// The caller polls before each action that it performs, so that it
    /// learns of a shutdown in every phase; a caller that holds a payload
    /// to send sends it first.
    pub fn poll(&mut self, mailbox: &mut Mailbox) -> (action: Option<Action>)
        ensures
            (final(self)@, final(mailbox)@, action_view(action)) == polled(
                old(self)@,
                old(mailbox)@,
            ),
            final(self)@.wf(),
            final(mailbox)@.wf(),
    {
        proof {
            use_type_invariant(&*self);
            use_type_invariant(&*mailbox);
        }
        if self.phase == Phase::Stopped {
            return Some(Action::Stop);
        }
        if mailbox.is_closed() && mailbox.len() == 0 {
            return Some(self.stop());
        }
        if self.phase != Phase::Connected {
            return None;
        }
        match mailbox.recv() {
            Received::Payload(payload) => Some(self.step(Outcome::Payload { payload })),
            Received::Closed => Some(self.step(Outcome::Closed)),
            Received::Empty => None,
        }
    }
}

/// Whether the outcome is that the mailbox is closed and drained.
fn says_closed(outcome: &Outcome) -> (r: bool)
    ensures
        r == (outcome@ is Closed),
{
    match outcome {
        Outcome::Closed => true,
        _ => false,
    }
}

/// The mailbox is closed and nothing waits in it.
pub open spec fn shut_down(mailbox: MailboxView) -> bool {
    mailbox.closed && mailbox.queue.len() == 0
}

/// The model of an action that may be absent.
pub open spec fn action_view(action: Option<Action>) -> Option<ActionView> {
    match action {
        Some(a) => Some(a@),
        None => None,
    }
}

/// What `poll` makes of a shipper and a mailbox.
pub open spec fn polled(shipper: ShipperView, mailbox: MailboxView) -> (
    ShipperView,
    MailboxView,
    Option<ActionView>,
) {
    if shipper.phase == Phase::Stopped {
        (shipper, mailbox, Some(ActionView::Stop))
    } else if shut_down(mailbox) {
        (shipper.at(Phase::Stopped), mailbox, Some(ActionView::Stop))
    } else if shipper.phase != Phase::Connected {
        (shipper, mailbox, None)
    } else if mailbox.queue.len() > 0 {
        let (after, action) = shipper.next(OutcomeView::Payload { payload: mailbox.queue[0] });
        (after, mailbox.received(), Some(action))
    } else {
        (shipper, mailbox, None)
    }
}

/// Every step leaves the shipper well formed and leaves its settings as
/// they were.
pub proof fn lemma_next_is_well_formed(shipper: ShipperView, outcome: OutcomeView)
    requires
        shipper.wf(),
    ensures
        shipper.next(outcome).0.wf(),
        shipper.next(outcome).0.backoff == shipper.backoff,
        shipper.next(outcome).0.limit == shipper.limit,
{
}

/// The shipper stops when it is told that the mailbox is closed and
/// drained, in whatever phase, and for no other outcome; once stopped it
/// stays stopped.
pub proof fn lemma_stops_when_closed(shipper: ShipperView, outcome: OutcomeView)
    ensures
        shipper.next(outcome).1 is Stop <==> shipper.phase == Phase::Stopped || outcome is Closed,
        shipper.next(outcome).0.phase == Phase::Stopped <==> shipper.next(outcome).1 is Stop,
{
}

/// A shipper that polls a mailbox which is closed and drained stops, in
/// whatever phase; and a shipper that has not stopped yet stops on polling
/// for no other reason. The mailbox is left as it is.
pub proof fn lemma_shutdown_is_seen_in_every_phase(shipper: ShipperView, mailbox: MailboxView)
    ensures
        shut_down(mailbox) ==> polled(shipper, mailbox) == (
            shipper.at(Phase::Stopped),
            mailbox,
            Some(ActionView::Stop),
        ),
        shipper.phase != Phase::Stopped ==> (polled(shipper, mailbox).2 == Some(ActionView::Stop)
            <==> shut_down(mailbox)),
        polled(shipper, mailbox).0.phase == Phase::Stopped <==> polled(shipper, mailbox).2 == Some(
            ActionView::Stop,
        ),
{
}

/// Once the mailbox is closed, a caller that polls before each action
/// reaches the end: every payload that still waits is taken by one poll of
/// a connected shipper, and when none waits the next poll stops.
pub proof fn lemma_closed_mailbox_drains(shipper: ShipperView, mailbox: MailboxView)
    requires
        mailbox.closed,
        shipper.phase == Phase::Connected,
        mailbox.queue.len() > 0,
    ensures
        polled(shipper, mailbox).1.closed,
        polled(shipper, mailbox).1.queue.len() == mailbox.queue.len() - 1,
{
}

/// A local endpoint is bound for the family of the address that is then in
/// use.
pub proof fn lemma_bind_matches_family(shipper: ShipperView, outcome: OutcomeView)
    requires
        shipper.wf(),
    ensures
        shipper.next(outcome).1 matches ActionView::Bind { family } ==> {
            let after = shipper.next(outcome).0;
            &&& after.phase == Phase::Binding
            &&& after.current < after.families.len()
            &&& family == after.families[after.current as int]
        },
{
}

/// What is sent is the payload that was just received, unchanged, to the
/// address in use, and it fits the limit. Nothing else is ever sent.
pub proof fn lemma_sends_what_it_received(shipper: ShipperView, outcome: OutcomeView)
    ensures
        shipper.next(outcome).1 matches ActionView::Send { payload, address } ==> {
            &&& shipper.phase == Phase::Connected
            &&& outcome == (OutcomeView::Payload { payload })
            &&& payload.len() <= shipper.limit
            &&& address == shipper.current
        },
        shipper.phase == Phase::Connected && outcome is Payload ==> {
            let after = shipper.next(outcome);
            if outcome->payload.len() <= shipper.limit {
                after.1 == (ActionView::Send { payload: outcome->payload, address: shipper.current })
            } else {
                after == (shipper, ActionView::Receive)
            }
        },
{
}

/// After a failed resolution the shipper waits the backoff once and
/// resolves again; when that resolution gives an address, it binds for the
/// first one, and once bound it sends the next payload that fits the limit.
pub proof fn lemma_reconnects(
    shipper: ShipperView,
    families: Seq<Family>,
    payload: Seq<u8>,
)
    requires
        shipper.phase == Phase::Resolving,
        families.len() > 0,
        payload.len() <= shipper.limit,
    ensures
        ({
            let (waiting, first) = shipper.next(OutcomeView::ResolutionFailed);
            let (resolving, second) = waiting.next(OutcomeView::Elapsed);
            let (binding, third) = resolving.next(OutcomeView::Resolved { families });
            let (connected, fourth) = binding.next(OutcomeView::Bound);
            let (sending, fifth) = connected.next(OutcomeView::Payload { payload });
            &&& first == (ActionView::Sleep { millis: shipper.backoff })
            &&& second == ActionView::Resolve
            &&& third == (ActionView::Bind { family: families[0] })
            &&& fourth == ActionView::Receive
            &&& fifth == (ActionView::Send { payload, address: 0 })
        }),
{
}

/// A failed send loses the payload and nothing else: the shipper goes on
/// with the next payload on the same endpoint, or resolves again where the
/// endpoint will not serve any longer.
pub proof fn lemma_send_failure(shipper: ShipperView, fault: SendFault)
    requires
        shipper.phase == Phase::Sending,
    ensures
        shipper.next(OutcomeView::SendFailed { fault }) == if fault.unusable() {
            (shipper.at(Phase::Resolving), ActionView::Resolve)
        } else {
            (shipper.at(Phase::Connected), ActionView::Receive)
        },
{
}

/// Payloads are sent in the order in which the mailbox accepted them: a
/// connected shipper that polls takes the payload that has waited longest
/// and leaves the others in their order.
pub proof fn lemma_polls_in_order(shipper: ShipperView, mailbox: MailboxView)
    requires
        shipper.phase == Phase::Connected,
        mailbox.queue.len() > 0,
        mailbox.queue[0].len() <= shipper.limit,
    ensures
        polled(shipper, mailbox).2 == Some(
            ActionView::Send { payload: mailbox.queue[0], address: shipper.current },
        ),
        polled(shipper, mailbox).1.queue == mailbox.queue.drop_first(),
{
}

/// One round of a sender whose sends succeed: it polls, and where the
/// shipper names a datagram it hands that over and reports `Sent`. The
/// result is the shipper and the mailbox after the round, and the datagram
/// that was handed over, with the position of its address, if there was
/// one.
pub open spec fn round(shipper: ShipperView, mailbox: MailboxView) -> (
    ShipperView,
    MailboxView,
    Option<(Seq<u8>, nat)>,
) {
    let (after, left, action) = polled(shipper, mailbox);
    match action {
        Some(ActionView::Send { payload, address }) => (
            after.next(OutcomeView::Sent).0,
            left,
            Some((payload, address)),
        ),
        _ => (after, left, None),
    }
}

/// That many rounds, one after the other, and the datagrams that were
/// handed over in them, in their order.
pub open spec fn rounds(shipper: ShipperView, mailbox: MailboxView, count: nat) -> (
    ShipperView,
    MailboxView,
    Seq<(Seq<u8>, nat)>,
)
    decreases count,
{
    if count == 0 {
        (shipper, mailbox, Seq::empty())
    } else {
        let (before, waiting, handed) = rounds(shipper, mailbox, (count - 1) as nat);
        let (after, left, one) = round(before, waiting);
        (
            after,
            left,
            match one {
                Some(datagram) => handed.push(datagram),
                None => handed,
            },
        )
    }
}

/// The payloads that fit the limit, in their order, each with the position
/// of the address.
pub open spec fn datagrams(payloads: Seq<Seq<u8>>, limit: nat, address: nat) -> Seq<(Seq<u8>, nat)>
    decreases payloads.len(),
{
    if payloads.len() == 0 {
        Seq::empty()
    } else if payloads.last().len() <= limit {
        datagrams(payloads.drop_last(), limit, address).push((payloads.last(), address))
    } else {
        datagrams(payloads.drop_last(), limit, address)
    }
}

/// A connected sender whose sends succeed hands over what waits in the
/// mailbox in the order in which it was accepted: after as many rounds as
/// payloads waited, the datagrams handed over are these payloads, each
/// once, unchanged, in their order, to the address in use; only a payload
/// over the limit is left out. The sender is connected as before, and the
/// mailbox holds what was accepted behind them.
pub proof fn lemma_run_sends_in_order(shipper: ShipperView, mailbox: MailboxView, count: nat)
    requires
        shipper.phase == Phase::Connected,
        count <= mailbox.queue.len(),
    ensures
        rounds(shipper, mailbox, count).0 == shipper,
        rounds(shipper, mailbox, count).1 == (MailboxView {
            queue: mailbox.queue.skip(count as int),
            ..mailbox
        }),
        rounds(shipper, mailbox, count).2 == datagrams(
            mailbox.queue.take(count as int),
            shipper.limit,
            shipper.current,
        ),
    decreases count,
{
    if count == 0 {
        assert(mailbox.queue.skip(0) =~= mailbox.queue);
        assert(mailbox.queue.take(0) =~= Seq::<Seq<u8>>::empty());
    } else {
        let fewer = (count - 1) as nat;
        lemma_run_sends_in_order(shipper, mailbox, fewer);
        let waiting = MailboxView { queue: mailbox.queue.skip(fewer as int), ..mailbox };
        assert(waiting.queue.len() > 0);
        assert(waiting.queue[0] == mailbox.queue[fewer as int]);
        assert(waiting.queue.drop_first() =~= mailbox.queue.skip(count as int));
        let taken = mailbox.queue.take(count as int);
        assert(taken.drop_last() =~= mailbox.queue.take(fewer as int));
        assert(taken.last() == mailbox.queue[fewer as int]);
    }
}

/// Where every payload fits the limit, the datagrams are the payloads.
pub proof fn lemma_datagrams_of_fitting(payloads: Seq<Seq<u8>>, limit: nat, address: nat)
    requires
        forall|i: int| 0 <= i < payloads.len() ==> (#[trigger] payloads[i]).len() <= limit,
    ensures
        datagrams(payloads, limit, address) == payloads.map_values(|p: Seq<u8>| (p, address)),
    decreases payloads.len(),
{
    if payloads.len() > 0 {
        let front = payloads.drop_last();
        assert forall|i: int| 0 <= i < front.len() implies (#[trigger] front[i]).len() <= limit by {
            assert(front[i] == payloads[i]);
        }
        lemma_datagrams_of_fitting(front, limit, address);
        assert(payloads.last() == payloads[payloads.len() - 1]);
        assert(datagrams(payloads, limit, address) =~= payloads.map_values(
            |p: Seq<u8>| (p, address),
        ));
    } else {
        assert(datagrams(payloads, limit, address) =~= payloads.map_values(
            |p: Seq<u8>| (p, address),
        ));
    }
}

} // verus!
