//! The typed bus: one broadcast channel for each type of message, with a
//! limit on what may wait in it.

use crate::assoc::{AssocMap, Key};
use crate::text::str_eq;
use vstd::prelude::*;

verus! {

/// The size of a channel whose type of message names no other.
pub const DEFAULT_CAPACITY: usize = 100000;

/// The size of a channel for large messages.
pub const LOW_CAPACITY: usize = 10000;

/// How far below the size of its channel the limit for senders lies.
pub const CAPACITY_MARGIN: usize = 10;

/// A type of message that the bus carries, with the size of its channel and
/// the number of waiting messages from which senders are refused. The limit
/// lies below the size, so that a sender that checks and then sends never
/// finds the channel full.
pub trait BusMessage {
    const CAPACITY: usize = DEFAULT_CAPACITY;
}

/// The number of waiting messages from which senders are refused. Every type
/// of message has it, and none can choose it.
pub trait SendLimit {
    const CAPACITY_IF_WAITING: usize;
}

impl<M: BusMessage> SendLimit for M {
    const CAPACITY_IF_WAITING: usize = M::CAPACITY - 10;
}

impl BusMessage for () {
}

/// For every type of message whose channel has room for ten messages, the
/// limit for senders is the size of its channel less ten.
pub proof fn lemma_capacity_if_waiting<M: BusMessage>()
    requires
        M::CAPACITY >= CAPACITY_MARGIN,
    ensures
        M::CAPACITY_IF_WAITING == M::CAPACITY - 10,
        M::CAPACITY_IF_WAITING < M::CAPACITY,
{
}

/// A block as the node state has processed it, in its encoded form.
#[derive(Debug, Clone, PartialEq, Eq)]
pub struct NodeStateEvent(pub Vec<u8>);

/// A block as data availability hands it out, in its encoded form.
#[derive(Debug, Clone, PartialEq, Eq)]
pub struct DataEvent(pub Vec<u8>);

/// A block as the mempool has built it, in its encoded form.
#[derive(Debug, Clone, PartialEq, Eq)]
pub struct MempoolBlockEvent(pub Vec<u8>);

/// The state of a transaction in the mempool, in its encoded form.
#[derive(Debug, Clone, PartialEq, Eq)]
pub struct MempoolStatusEvent(pub Vec<u8>);

impl BusMessage for NodeStateEvent {
    const CAPACITY: usize = LOW_CAPACITY;
}

impl BusMessage for DataEvent {
    const CAPACITY: usize = LOW_CAPACITY;
}

impl BusMessage for MempoolBlockEvent {
    const CAPACITY: usize = LOW_CAPACITY;
}

impl BusMessage for MempoolStatusEvent {
    const CAPACITY: usize = LOW_CAPACITY;
}

/// The sizes of the channels of the unit message and of the four large
/// events, and the limits for their senders: a hundred thousand and ten less
/// for the unit message, ten thousand and ten less for each of the events.
pub proof fn lemma_event_capacities()
    ensures
        <() as BusMessage>::CAPACITY == DEFAULT_CAPACITY,
        <() as SendLimit>::CAPACITY_IF_WAITING == 99990,
        <NodeStateEvent as BusMessage>::CAPACITY == LOW_CAPACITY,
        <NodeStateEvent as SendLimit>::CAPACITY_IF_WAITING == 9990,
        <DataEvent as BusMessage>::CAPACITY == LOW_CAPACITY,
        <DataEvent as SendLimit>::CAPACITY_IF_WAITING == 9990,
        <MempoolBlockEvent as BusMessage>::CAPACITY == LOW_CAPACITY,
        <MempoolBlockEvent as SendLimit>::CAPACITY_IF_WAITING == 9990,
        <MempoolStatusEvent as BusMessage>::CAPACITY == LOW_CAPACITY,
        <MempoolStatusEvent as SendLimit>::CAPACITY_IF_WAITING == 9990,
{
}

/// Why the bus does not take or give a message.
#[derive(Debug, Clone, Copy, PartialEq, Eq)]
pub enum BusError {
    /// As many messages wait as senders are allowed to let wait.
    ChannelFull,
    /// Nobody is left at the other end.
    ChannelClosed,
    /// The receiver was too slow and has missed this many messages.
    Lagged(u64),
    /// No message waits.
    Empty,
}

/// What becomes of a message that is sent.
#[derive(Debug, Clone, Copy, PartialEq, Eq)]
pub enum SendDecision {
    /// Nobody listens: the message is dropped, and the send succeeds.
    Skip,
    /// Too many messages wait: the send fails.
    Refuse,
    /// The message goes into the channel.
    Enqueue,
}

/// What becomes of a message, given how many receivers the channel has, how
/// many messages wait in it, and from how many on senders are refused.
pub open spec fn send_decision(receivers: usize, queued: usize, limit: usize) -> SendDecision {
    if receivers == 0 {
        SendDecision::Skip
    } else if queued >= limit {
        SendDecision::Refuse
    } else {
        SendDecision::Enqueue
    }
}

/// Decides what becomes of a message.
pub fn decide_send(receivers: usize, queued: usize, limit: usize) -> (r: SendDecision)
    ensures
        r == send_decision(receivers, queued, limit),
{
    if receivers == 0 {
        SendDecision::Skip
    } else if queued >= limit {
        SendDecision::Refuse
    } else {
        SendDecision::Enqueue
    }
}

/// A message for a channel without receivers is dropped, whatever waits in
/// the channel: sending it succeeds and puts nothing into the channel.
pub proof fn lemma_no_receiver_no_send<M: BusMessage>(queued: usize)
    ensures
        send_decision(0, queued, M::CAPACITY_IF_WAITING) == SendDecision::Skip,
{
}

/// Once as many messages wait for a receiver as the channel has room for,
/// the next message is refused.
pub proof fn lemma_full_channel_refuses<M: BusMessage>(receivers: usize, queued: usize)
    requires
        M::CAPACITY >= CAPACITY_MARGIN,
        receivers > 0,
        queued >= M::CAPACITY,
    ensures
        send_decision(receivers, queued, M::CAPACITY_IF_WAITING) == SendDecision::Refuse,
{
}

/// The sending end of a broadcast channel of the crate `tokio`.
#[verifier::external_type_specification]
#[verifier::external_body]
#[verifier::reject_recursive_types(T)]
pub struct ExSender<T>(tokio::sync::broadcast::Sender<T>);

/// A receiving end of a broadcast channel of the crate `tokio`.
#[verifier::external_type_specification]
#[verifier::external_body]
#[verifier::reject_recursive_types(T)]
pub struct ExReceiver<T>(tokio::sync::broadcast::Receiver<T>);

/// `Sender::receiver_count` of `tokio::sync::broadcast`: how many receivers
/// the channel has at this moment. Other tasks subscribe and leave, so nothing
/// is said of the number.
#[verifier::external_body]
fn receivers_of<M>(sender: &tokio::sync::broadcast::Sender<M>) -> (n: usize) {
    sender.receiver_count()
}

/// `Sender::len` of `tokio::sync::broadcast`: how many messages wait for the
/// slowest receiver at this moment. Other tasks send and receive, so nothing is
/// said of the number.
#[verifier::external_body]
fn queued_in<M>(sender: &tokio::sync::broadcast::Sender<M>) -> (n: usize) {
    sender.len()
}

/// `Sender::send` of `tokio::sync::broadcast`: whether the channel took the
/// message. It takes none once its last receiver is gone, which other tasks
/// decide, so nothing is said of the answer.
#[verifier::external_body]
fn enqueue<M>(sender: &tokio::sync::broadcast::Sender<M>, message: M) -> (taken: bool) {
    sender.send(message).is_ok()
}

/// `Receiver::try_recv` of `tokio::sync::broadcast`: the next message if one
/// waits, else why there is none. What waits is for other tasks to decide, so
/// nothing is said of the answer.
#[verifier::external_body]
fn next_of<M: Clone>(receiver: &mut tokio::sync::broadcast::Receiver<M>) -> (r: Result<M, BusError>) {
    match receiver.try_recv() {
        Ok(message) => Ok(message),
        Err(tokio::sync::broadcast::error::TryRecvError::Empty) => Err(BusError::Empty),
        Err(tokio::sync::broadcast::error::TryRecvError::Closed) => Err(BusError::ChannelClosed),
        Err(tokio::sync::broadcast::error::TryRecvError::Lagged(n)) => Err(BusError::Lagged(n)),
    }
}

/// What a send returns, given what was decided of the message and, where it
/// went to the channel, whether the channel took it.
pub open spec fn send_result(decision: SendDecision, taken: bool) -> Result<(), BusError> {
    match decision {
        SendDecision::Skip => Ok(()),
        SendDecision::Refuse => Err(BusError::ChannelFull),
        SendDecision::Enqueue => if taken {
            Ok(())
        } else {
            Err(BusError::ChannelClosed)
        },
    }
}

/// Sends `message`, given how many receivers its channel was seen to have and
/// how many messages were seen to wait in it: without receivers the send
/// succeeds and the channel is left alone; at the limit it fails; else the
/// message goes to the channel, and the send fails only if the channel has
/// closed meanwhile.
pub fn send_observed<M: BusMessage>(
    sender: &tokio::sync::broadcast::Sender<M>,
    message: M,
    receivers: usize,
    queued: usize,
) -> (r: Result<(), BusError>)
    ensures
        exists|taken: bool|
            r == send_result(
                send_decision(receivers, queued, <M as SendLimit>::CAPACITY_IF_WAITING),
                taken,
            ),
{
    match decide_send(receivers, queued, <M as SendLimit>::CAPACITY_IF_WAITING) {
        SendDecision::Skip => {
            assert(send_result(SendDecision::Skip, true) == Ok::<(), BusError>(()));
            Ok(())
        },
        SendDecision::Refuse => {
            assert(send_result(SendDecision::Refuse, true) == Err::<(), BusError>(
                BusError::ChannelFull,
            ));
            Err(BusError::ChannelFull)
        },
        SendDecision::Enqueue => {
            let taken = enqueue(sender, message);
            assert(send_result(SendDecision::Enqueue, taken) == if taken {
                Ok::<(), BusError>(())
            } else {
                Err::<(), BusError>(BusError::ChannelClosed)
            });
            if taken {
                Ok(())
            } else {
                Err(BusError::ChannelClosed)
            }
        },
    }
}

/// How often a sender that waits for room tries before it warns again.
pub const HIGH_NB_OF_ATTEMPTS: usize = 100;

/// For how many milliseconds a sender that waits for room sleeps between two tries.
pub const RETRY_DELAY_MS: u64 = 100;

/// What a sender that waits for room does at one try.
#[derive(Debug, Clone, Copy, PartialEq, Eq)]
pub enum WaitingSend {
    /// Sleep, then try again; warn before, if told so.
    Retry { warn: bool },
    /// The message goes into the channel.
    Enqueue,
}

/// What a sender that waits for room does at its try number `attempt`,
/// counted from zero: while the channel is at its limit it sleeps, and warns
/// at every hundredth try; else it sends.
pub open spec fn waiting_send_decision(attempt: usize, queued: usize, limit: usize) -> WaitingSend {
    if queued >= limit {
        WaitingSend::Retry { warn: attempt % HIGH_NB_OF_ATTEMPTS == 0 }
    } else {
        WaitingSend::Enqueue
    }
}

/// Whether a sender that waits for room has anything to wait for: without
/// receivers its message is dropped at once, and the send succeeds.
pub fn waiting_send_start(receivers: usize) -> (r: bool)
    ensures
        r == (receivers > 0),
{
    receivers > 0
}

/// Decides what a sender that waits for room does at one try.
pub fn waiting_send_step(attempt: usize, queued: usize, limit: usize) -> (r: WaitingSend)
    ensures
        r == waiting_send_decision(attempt, queued, limit),
{
    if queued >= limit {
        WaitingSend::Retry { warn: attempt % HIGH_NB_OF_ATTEMPTS == 0 }
    } else {
        WaitingSend::Enqueue
    }
}

/// What a counter of the bus counts: the messages of one type that the
/// clients of one type have sent, or received.
#[derive(Debug, PartialEq, Eq)]
pub struct MetricKey {
    pub message_type: String,
    pub client_type: String,
}

impl Key for MetricKey {
    type Id = (Seq<char>, Seq<char>);

    open spec fn id(&self) -> (Seq<char>, Seq<char>) {
        (self.message_type@, self.client_type@)
    }

    fn same(&self, other: &Self) -> (r: bool) {
        str_eq(self.message_type.as_str(), other.message_type.as_str()) && str_eq(
            self.client_type.as_str(),
            other.client_type.as_str(),
        )
    }
}

/// What a counter stands at: zero, for one that never counted.
pub open spec fn count_of(counts: Map<(Seq<char>, Seq<char>), u64>, key: (Seq<char>, Seq<char>)) -> u64 {
    if counts.contains_key(key) {
        counts[key]
    } else {
        0
    }
}

/// The counters after one more was counted under `key`. A counter stays at
/// the largest number that it can hold.
pub open spec fn counted(counts: Map<(Seq<char>, Seq<char>), u64>, key: (Seq<char>, Seq<char>)) -> Map<
    (Seq<char>, Seq<char>),
    u64,
> {
    counts.insert(
        key,
        if count_of(counts, key) == u64::MAX {
            u64::MAX
        } else {
            (count_of(counts, key) + 1) as u64
        },
    )
}

/// The counters of the bus.
pub struct BusMetrics {
    sent: AssocMap<MetricKey, u64>,
    received: AssocMap<MetricKey, u64>,
}

impl BusMetrics {
    /// No counter occurs twice.
    pub closed spec fn wf(&self) -> bool {
        self.sent.wf() && self.received.wf()
    }

    /// How many messages were sent, by type of message and of client.
    pub closed spec fn sent(&self) -> Map<(Seq<char>, Seq<char>), u64> {
        self.sent@
    }

    /// How many messages were asked for, by type of message and of client.
    pub closed spec fn received(&self) -> Map<(Seq<char>, Seq<char>), u64> {
        self.received@
    }

    /// Counters that have counted nothing.
    pub fn new() -> (r: Self)
        ensures
            r.wf(),
            r.sent() == Map::<(Seq<char>, Seq<char>), u64>::empty(),
            r.received() == Map::<(Seq<char>, Seq<char>), u64>::empty(),
    {
        BusMetrics { sent: AssocMap::new(), received: AssocMap::new() }
    }

    /// Counts a message that a client sends.
    pub fn send(&mut self, message_type: &str, client_type: &str)
        requires
            old(self).wf(),
        ensures
            final(self).wf(),
            final(self).sent() == counted(old(self).sent(), (message_type@, client_type@)),
            final(self).received() == old(self).received(),
    {
        let key = MetricKey {
            message_type: message_type.to_string(),
            client_type: client_type.to_string(),
        };
        let n: u64 = match self.sent.get(&key) {
            Some(n) => *n,
            None => 0,
        };
        self.sent.insert(key, n.saturating_add(1));
    }

    /// Counts a message that a client asks for.
    pub fn receive(&mut self, message_type: &str, client_type: &str)
        requires
            old(self).wf(),
        ensures
            final(self).wf(),
            final(self).received() == counted(old(self).received(), (message_type@, client_type@)),
            final(self).sent() == old(self).sent(),
    {
        let key = MetricKey {
            message_type: message_type.to_string(),
            client_type: client_type.to_string(),
        };
        let n: u64 = match self.received.get(&key) {
            Some(n) => *n,
            None => 0,
        };
        self.received.insert(key, n.saturating_add(1));
    }

    /// How many messages of that type clients of that type have sent.
    pub fn sent_count(&self, message_type: &str, client_type: &str) -> (r: u64)
        requires
            self.wf(),
        ensures
            r == count_of(self.sent(), (message_type@, client_type@)),
    {
        let key = MetricKey {
            message_type: message_type.to_string(),
            client_type: client_type.to_string(),
        };
        match self.sent.get(&key) {
            Some(n) => *n,
            None => 0,
        }
    }

    /// How many messages of that type clients of that type have asked for.
    pub fn received_count(&self, message_type: &str, client_type: &str) -> (r: u64)
        requires
            self.wf(),
        ensures
            r == count_of(self.received(), (message_type@, client_type@)),
    {
        let key = MetricKey {
            message_type: message_type.to_string(),
            client_type: client_type.to_string(),
        };
        match self.received.get(&key) {
            Some(n) => *n,
            None => 0,
        }
    }
}

/// A client of the bus that sends messages of the type `T`.
pub trait BusClientSender<T> {
    /// Whether the client is in order, as every client is that was made by
    /// its constructor.
    spec fn in_order(&self) -> bool;

    /// Sends `message`. Fails where the channel is full or has closed;
    /// succeeds without sending where nobody listens.
    fn send(&mut self, message: T) -> (r: Result<(), BusError>)
        requires
            old(self).in_order(),
        ensures
            final(self).in_order(),
            r is Err ==> r == Err::<(), BusError>(BusError::ChannelFull) || r == Err::<
                (),
                BusError,
            >(BusError::ChannelClosed),
    ;
}

/// A client of the bus that receives messages of the type `T`.
pub trait BusClientReceiver<T> {
    /// Whether the client is in order, as every client is that was made by
    /// its constructor.
    spec fn in_order(&self) -> bool;

    /// The next message, if one waits.
    fn try_recv(&mut self) -> (r: Result<T, BusError>)
        requires
            old(self).in_order(),
        ensures
            final(self).in_order(),
    ;
}

/// A counter after it has counted once more: it stays at the largest number
/// that it can hold.
pub open spec fn bumped(n: u64) -> u64 {
    if n == u64::MAX {
        u64::MAX
    } else {
        (n + 1) as u64
    }
}

/// Whether a send that found `receivers` receivers and `queued` waiting
/// messages at its channel, of which the channel then took the message or
/// not, ended in `r` and took the count of sent messages from `before` to
/// `after`: the result is the one that the rule for sends gives, and the
/// message is counted where it went to the channel, and only there.
pub open spec fn sent_as(
    before: u64,
    after: u64,
    r: Result<(), BusError>,
    receivers: usize,
    queued: usize,
    limit: usize,
    taken: bool,
) -> bool {
    &&& r == send_result(send_decision(receivers, queued, limit), taken)
    &&& after == if send_decision(receivers, queued, limit) == SendDecision::Enqueue {
        bumped(before)
    } else {
        before
    }
}

/// The end of a client at which messages of one type go out.
#[verifier::reject_recursive_types(M)]
pub struct Outbox<M> {
    sender: tokio::sync::broadcast::Sender<M>,
    metrics: BusMetrics,
    message_type: String,
    client_type: String,
}

impl<M: BusMessage> Outbox<M> {
    /// The counters are in order.
    pub closed spec fn counters_in_order(&self) -> bool {
        self.metrics.wf()
    }

    /// How many messages this end has put into its channel.
    pub closed spec fn sent(&self) -> u64 {
        count_of(self.metrics.sent(), (self.message_type@, self.client_type@))
    }

    /// The sending end, for a client of the type `client_type`, of the
    /// channel of the messages whose type goes by the name `message_type`.
    pub fn new(sender: tokio::sync::broadcast::Sender<M>, message_type: &str, client_type: &str) -> (r:
        Self)
        ensures
            r.counters_in_order(),
            r.sent() == 0,
    {
        Outbox {
            sender,
            metrics: BusMetrics::new(),
            message_type: message_type.to_string(),
            client_type: client_type.to_string(),
        }
    }

    /// How many messages this end has put into its channel.
    pub fn sent_count(&self) -> (r: u64)
        requires
            self.counters_in_order(),
        ensures
            r == self.sent(),
    {
        self.metrics.sent_count(self.message_type.as_str(), self.client_type.as_str())
    }

    /// Whether a sender that waits for room has anything to wait for at this
    /// moment: whether anybody listens.
    pub fn waiting_start(&self) -> (r: bool) {
        waiting_send_start(receivers_of(&self.sender))
    }

    /// What a sender that waits for room does at its try number `attempt`,
    /// given what waits in the channel at this moment.
    pub fn waiting_step(&self, attempt: usize) -> (r: WaitingSend)
        ensures
            exists|queued: usize|
                r == #[trigger] waiting_send_decision(
                    attempt,
                    queued,
                    <M as SendLimit>::CAPACITY_IF_WAITING,
                ),
    {
        let queued = queued_in(&self.sender);
        let r = waiting_send_step(attempt, queued, <M as SendLimit>::CAPACITY_IF_WAITING);
        assert(r == waiting_send_decision(attempt, queued, <M as SendLimit>::CAPACITY_IF_WAITING));
        r
    }

    /// Puts `message` into the channel, whatever waits in it, and counts it.
    /// Fails where the channel has closed.
    pub fn enqueue(&mut self, message: M) -> (r: Result<(), BusError>)
        requires
            old(self).counters_in_order(),
        ensures
            final(self).counters_in_order(),
            final(self).sent() == if old(self).sent() == u64::MAX {
                u64::MAX
            } else {
                (old(self).sent() + 1) as u64
            },
            r is Err ==> r == Err::<(), BusError>(BusError::ChannelClosed),
            r is Ok ==> r == Ok::<(), BusError>(()),
    {
        self.metrics.send(self.message_type.as_str(), self.client_type.as_str());
        if enqueue(&self.sender, message) {
            Ok(())
        } else {
            Err(BusError::ChannelClosed)
        }
    }
}

impl<M: BusMessage> BusClientSender<M> for Outbox<M> {
    open spec fn in_order(&self) -> bool {
        self.counters_in_order()
    }

    fn send(&mut self, message: M) -> (r: Result<(), BusError>)
        ensures
            exists|receivers: usize, queued: usize, taken: bool| #[trigger]
                sent_as(
                    old(self).sent(),
                    final(self).sent(),
                    r,
                    receivers,
                    queued,
                    <M as SendLimit>::CAPACITY_IF_WAITING,
                    taken,
                ),
    {
        let receivers = receivers_of(&self.sender);
        let queued = queued_in(&self.sender);
        let ghost before = self.sent();
        let ghost limit = <M as SendLimit>::CAPACITY_IF_WAITING;
        match decide_send(receivers, queued, <M as SendLimit>::CAPACITY_IF_WAITING) {
            SendDecision::Skip => {
                assert(sent_as(before, self.sent(), Ok(()), receivers, queued, limit, true));
                Ok(())
            },
            SendDecision::Refuse => {
                assert(sent_as(
                    before,
                    self.sent(),
                    Err(BusError::ChannelFull),
                    receivers,
                    queued,
                    limit,
                    true,
                ));
                Err(BusError::ChannelFull)
            },
            SendDecision::Enqueue => {
                let r = self.enqueue(message);
                assert(sent_as(before, self.sent(), r, receivers, queued, limit, r is Ok));
                r
            },
        }
    }
}

/// The end of a client at which messages of one type come in.
#[verifier::reject_recursive_types(M)]
pub struct Inbox<M> {
    receiver: tokio::sync::broadcast::Receiver<M>,
    metrics: BusMetrics,
    message_type: String,
    client_type: String,
}

impl<M: Clone> Inbox<M> {
    /// The counters are in order.
    pub closed spec fn counters_in_order(&self) -> bool {
        self.metrics.wf()
    }

    /// How often this end was asked for a message.
    pub closed spec fn asked(&self) -> u64 {
        count_of(self.metrics.received(), (self.message_type@, self.client_type@))
    }

    /// The receiving end, for a client of the type `client_type`, of the
    /// channel of the messages whose type goes by the name `message_type`.
    pub fn new(receiver: tokio::sync::broadcast::Receiver<M>, message_type: &str, client_type: &str) -> (r:
        Self)
        ensures
            r.counters_in_order(),
            r.asked() == 0,
    {
        Inbox {
            receiver,
            metrics: BusMetrics::new(),
            message_type: message_type.to_string(),
            client_type: client_type.to_string(),
        }
    }

    /// How often this end was asked for a message.
    pub fn received_count(&self) -> (r: u64)
        requires
            self.counters_in_order(),
        ensures
            r == self.asked(),
    {
        self.metrics.received_count(self.message_type.as_str(), self.client_type.as_str())
    }

    /// Counts that this end is asked for a message. The host counts so before
    /// it waits for a message.
    pub fn count_receive(&mut self)
        requires
            old(self).counters_in_order(),
        ensures
            final(self).counters_in_order(),
            final(self).asked() == if old(self).asked() == u64::MAX {
                u64::MAX
            } else {
                (old(self).asked() + 1) as u64
            },
    {
        self.metrics.receive(self.message_type.as_str(), self.client_type.as_str());
    }
}

impl<M: Clone> BusClientReceiver<M> for Inbox<M> {
    open spec fn in_order(&self) -> bool {
        self.counters_in_order()
    }

    fn try_recv(&mut self) -> (r: Result<M, BusError>)
        ensures
            final(self).asked() == if old(self).asked() == u64::MAX {
                u64::MAX
            } else {
                (old(self).asked() + 1) as u64
            },
    {
        self.count_receive();
        next_of(&mut self.receiver)
    }
}

} // verus!
