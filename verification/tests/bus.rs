use hyle::bus::{
    decide_send, send_observed, waiting_send_start, waiting_send_step, BusClientReceiver,
    BusClientSender, BusError, BusMessage, BusMetrics, DataEvent, Inbox, MempoolBlockEvent,
    MempoolStatusEvent, NodeStateEvent, Outbox, SendDecision, SendLimit, WaitingSend,
    DEFAULT_CAPACITY, LOW_CAPACITY,
};
use hyle::genesis::GenesisEvent;
use hyle::signal::{PersistModule, ShutdownCompleted, ShutdownModule};

#[derive(Clone, Debug, PartialEq)]
struct Ping(u32);

impl BusMessage for Ping {}

#[derive(Clone, Debug, PartialEq)]
struct Small(u32);

impl BusMessage for Small {
    const CAPACITY: usize = 13;
}

fn outbox<M: BusMessage + Clone>() -> (Outbox<M>, tokio::sync::broadcast::Sender<M>) {
    let (sender, _) = tokio::sync::broadcast::channel::<M>(M::CAPACITY);
    (Outbox::new(sender.clone(), "message", "client"), sender)
}

#[test]
fn test_bus_channel_capacity() {
    assert_eq!(
        <MempoolStatusEvent as SendLimit>::CAPACITY_IF_WAITING,
        LOW_CAPACITY - 10
    );
}

#[test]
fn default_capacities() {
    assert_eq!(<Ping as BusMessage>::CAPACITY, DEFAULT_CAPACITY);
    assert_eq!(<Ping as SendLimit>::CAPACITY_IF_WAITING, 99_990);
    assert_eq!(<() as BusMessage>::CAPACITY, 100_000);
}

#[test]
fn send_without_receivers_is_skipped() {
    assert_eq!(decide_send(0, 0, 99_990), SendDecision::Skip);
    assert_eq!(decide_send(0, 1_000_000, 99_990), SendDecision::Skip);
}

#[test]
fn send_to_full_channel_is_refused() {
    assert_eq!(decide_send(1, 99_990, 99_990), SendDecision::Refuse);
    assert_eq!(decide_send(3, 100_000, 99_990), SendDecision::Refuse);
    assert_eq!(decide_send(1, 99_989, 99_990), SendDecision::Enqueue);
}

#[test]
fn every_limit_is_ten_below_the_capacity() {
    assert_eq!(<Small as SendLimit>::CAPACITY_IF_WAITING, 3);
    assert_eq!(<NodeStateEvent as SendLimit>::CAPACITY_IF_WAITING, 9_990);
    assert_eq!(<DataEvent as SendLimit>::CAPACITY_IF_WAITING, 9_990);
    assert_eq!(<MempoolBlockEvent as SendLimit>::CAPACITY_IF_WAITING, 9_990);
    assert_eq!(<ShutdownModule as SendLimit>::CAPACITY_IF_WAITING, 99_990);
    assert_eq!(<ShutdownCompleted as SendLimit>::CAPACITY_IF_WAITING, 99_990);
    assert_eq!(<PersistModule as SendLimit>::CAPACITY_IF_WAITING, 99_990);
    assert_eq!(<GenesisEvent as SendLimit>::CAPACITY_IF_WAITING, 99_990);
}

#[test]
fn sending_without_subscribers_succeeds() {
    let (mut out, sender) = outbox::<Small>();
    for i in 0..100 {
        assert_eq!(out.send(Small(i)), Ok(()));
    }
    assert_eq!(sender.len(), 0);
    assert_eq!(out.sent_count(), 0);
    assert!(!out.waiting_start());
}

#[test]
fn a_full_channel_refuses() {
    let (mut out, sender) = outbox::<Small>();
    let mut inbox = Inbox::new(sender.subscribe(), "message", "client");
    assert_eq!(inbox.try_recv(), Err(BusError::Empty));
    assert_eq!(out.send(Small(1)), Ok(()));
    assert_eq!(out.send(Small(2)), Ok(()));
    assert_eq!(out.send(Small(3)), Ok(()));
    assert_eq!(out.send(Small(4)), Err(BusError::ChannelFull));
    assert_eq!(out.send(Small(5)), Err(BusError::ChannelFull));
    assert_eq!(out.sent_count(), 3);
    assert!(out.waiting_start());
    assert_eq!(out.waiting_step(0), WaitingSend::Retry { warn: true });
    assert_eq!(out.waiting_step(7), WaitingSend::Retry { warn: false });
    assert_eq!(inbox.try_recv(), Ok(Small(1)));
    assert_eq!(out.waiting_step(7), WaitingSend::Enqueue);
    assert_eq!(out.send(Small(6)), Ok(()));
    assert_eq!(inbox.try_recv(), Ok(Small(2)));
    assert_eq!(inbox.try_recv(), Ok(Small(3)));
    assert_eq!(inbox.try_recv(), Ok(Small(6)));
    assert_eq!(inbox.try_recv(), Err(BusError::Empty));
    assert_eq!(inbox.received_count(), 6);
}

#[test]
fn messages_arrive_in_the_order_in_which_they_were_sent() {
    let (mut out, sender) = outbox::<Ping>();
    let mut first = Inbox::new(sender.subscribe(), "message", "client");
    assert_eq!(out.send(Ping(1)), Ok(()));
    let mut late = Inbox::new(sender.subscribe(), "message", "client");
    assert_eq!(out.send(Ping(2)), Ok(()));
    assert_eq!(out.enqueue(Ping(3)), Ok(()));
    assert_eq!(first.try_recv(), Ok(Ping(1)));
    assert_eq!(first.try_recv(), Ok(Ping(2)));
    assert_eq!(first.try_recv(), Ok(Ping(3)));
    assert_eq!(late.try_recv(), Ok(Ping(2)));
    assert_eq!(late.try_recv(), Ok(Ping(3)));
    assert_eq!(late.try_recv(), Err(BusError::Empty));
}

#[test]
fn a_slow_receiver_learns_that_it_lagged() {
    let (sender, receiver) = tokio::sync::broadcast::channel::<Ping>(2);
    let mut out: Outbox<Ping> = Outbox::new(sender, "message", "client");
    let mut inbox = Inbox::new(receiver, "message", "client");
    for i in 0..5 {
        assert_eq!(out.send(Ping(i)), Ok(()));
    }
    assert_eq!(inbox.try_recv(), Err(BusError::Lagged(3)));
    assert_eq!(inbox.try_recv(), Ok(Ping(3)));
    assert_eq!(inbox.try_recv(), Ok(Ping(4)));
    drop(out);
    assert_eq!(inbox.try_recv(), Err(BusError::ChannelClosed));
}

#[test]
fn a_send_goes_by_what_was_seen_of_the_channel() {
    let (sender, mut receiver) = tokio::sync::broadcast::channel::<Small>(13);
    assert_eq!(send_observed(&sender, Small(1), 0, 0), Ok(()));
    assert_eq!(send_observed(&sender, Small(1), 0, 50), Ok(()));
    assert_eq!(sender.len(), 0);
    assert_eq!(
        send_observed(&sender, Small(2), 1, 3),
        Err(BusError::ChannelFull)
    );
    assert_eq!(
        send_observed(&sender, Small(2), 1, 13),
        Err(BusError::ChannelFull)
    );
    assert_eq!(send_observed(&sender, Small(3), 1, 2), Ok(()));
    assert_eq!(receiver.try_recv(), Ok(Small(3)));
    drop(receiver);
    assert_eq!(
        send_observed(&sender, Small(4), 1, 0),
        Err(BusError::ChannelClosed)
    );
}

#[test]
fn a_sender_that_waits_warns_at_every_hundredth_try() {
    assert!(!waiting_send_start(0));
    assert!(waiting_send_start(1));
    assert_eq!(waiting_send_step(0, 10, 10), WaitingSend::Retry { warn: true });
    assert_eq!(waiting_send_step(1, 10, 10), WaitingSend::Retry { warn: false });
    assert_eq!(waiting_send_step(99, 11, 10), WaitingSend::Retry { warn: false });
    assert_eq!(waiting_send_step(100, 10, 10), WaitingSend::Retry { warn: true });
    assert_eq!(waiting_send_step(300, 10, 10), WaitingSend::Retry { warn: true });
    assert_eq!(waiting_send_step(100, 9, 10), WaitingSend::Enqueue);
}

#[test]
fn sends_and_receives_are_counted() {
    let mut metrics = BusMetrics::new();
    assert_eq!(metrics.sent_count("msg", "client"), 0);
    metrics.send("msg", "client");
    metrics.send("msg", "client");
    metrics.send("msg", "other");
    metrics.receive("msg", "client");
    assert_eq!(metrics.sent_count("msg", "client"), 2);
    assert_eq!(metrics.sent_count("msg", "other"), 1);
    assert_eq!(metrics.sent_count("other", "client"), 0);
    assert_eq!(metrics.received_count("msg", "client"), 1);
    assert_eq!(metrics.received_count("msg", "other"), 0);
}
