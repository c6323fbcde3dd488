use std::sync::atomic::{AtomicUsize, Ordering};
use std::sync::Arc;
use std::task::{Wake, Waker};

use worker::async_wakers::AsyncWaker;
use worker::error::Error;
use worker::wakers::{WakeSignal, Wakers};
use worker::worker::{channel, recv_step, send_step, Channel, RecvStep, SendStep};

type Signal = Box<dyn WakeSignal>;

struct TestWake {
    wake_count: Arc<AtomicUsize>,
}

impl Wake for TestWake {
    fn wake(self: Arc<Self>) {
        self.wake_count.fetch_add(1, Ordering::SeqCst);
    }

    fn wake_by_ref(self: &Arc<Self>) {
        self.wake_count.fetch_add(1, Ordering::SeqCst);
    }
}

fn test_waker(wake_count: &Arc<AtomicUsize>) -> Waker {
    Waker::from(Arc::new(TestWake {
        wake_count: wake_count.clone(),
    }))
}

/// A wake signal that counts its wake-ups and answers with a fixed value.
struct Counting {
    hits: Arc<AtomicUsize>,
    delivered: bool,
}

impl WakeSignal for Counting {
    fn delivers(&self) -> bool {
        self.delivered
    }

    fn wake(&self) -> bool {
        self.hits.fetch_add(1, Ordering::SeqCst);
        self.delivered
    }
}

fn counting(hits: &Arc<AtomicUsize>, delivered: bool) -> Signal {
    Box::new(Counting {
        hits: hits.clone(),
        delivered,
    })
}

#[test]
fn try_send_and_try_recv_round_trip() {
    let (sender, receiver) = channel::<i32, Signal>(2);

    assert!(sender.try_send(7).is_ok());
    assert_eq!(receiver.try_recv().unwrap(), 7);
    assert!(sender.try_send(42).is_ok());
    assert!(matches!(receiver.try_recv().unwrap(), 42));
}

#[test]
fn send_async_waits_for_receiver() {
    let (sender, receiver) = channel::<i32, Signal>(1);
    sender.try_send(7).unwrap();

    let wake_count = Arc::new(AtomicUsize::new(0));
    let mut send_fut = sender.send_async(8);

    assert!(send_fut.poll_with(&test_waker(&wake_count)).is_none());
    assert_eq!(wake_count.load(Ordering::SeqCst), 0);

    assert_eq!(receiver.try_recv().unwrap(), 7);
    assert!(wake_count.load(Ordering::SeqCst) > 0);

    assert!(matches!(
        send_fut.poll_with(&test_waker(&wake_count)),
        Some(Ok(()))
    ));
}

#[test]
fn recv_async_waits_for_sender() {
    let (sender, receiver) = channel::<i32, Signal>(1);

    let wake_count = Arc::new(AtomicUsize::new(0));
    let mut recv_fut = receiver.recv_async();

    assert!(recv_fut.poll_with(&test_waker(&wake_count)).is_none());
    assert_eq!(wake_count.load(Ordering::SeqCst), 0);

    assert!(sender.try_send(9).is_ok());
    assert!(wake_count.load(Ordering::SeqCst) > 0);

    assert!(matches!(
        recv_fut.poll_with(&test_waker(&wake_count)),
        Some(Ok(9))
    ));
}

#[test]
fn channel_keeps_fifo_order_across_wraparound() {
    let mut ch: Channel<u32, Signal> = Channel::new(3);
    let mut next_in = 0u32;
    let mut next_out = 0u32;
    for _ in 0..10 {
        for _ in 0..3 {
            assert!(ch.try_send(next_in).is_ok());
            next_in += 1;
        }
        for _ in 0..2 {
            assert_eq!(ch.try_recv().unwrap(), next_out);
            next_out += 1;
        }
        assert_eq!(ch.try_recv().unwrap(), next_out);
        next_out += 1;
    }
    assert_eq!(next_out, 30);
    assert!(matches!(ch.try_recv(), Err(Error::Empty)));
}

#[test]
fn full_channel_hands_the_item_back() {
    let mut ch: Channel<&str, Signal> = Channel::new(2);
    assert!(ch.try_send("a").is_ok());
    assert!(ch.try_send("b").is_ok());
    assert!(matches!(ch.try_send("c"), Err(Error::Full("c"))));
    assert_eq!(ch.try_recv().unwrap(), "a");
    assert!(ch.try_send("c").is_ok());
    assert_eq!(ch.try_recv().unwrap(), "b");
    assert_eq!(ch.try_recv().unwrap(), "c");
}

#[test]
fn empty_channel_answers_empty() {
    let mut ch: Channel<u8, Signal> = Channel::new(4);
    assert!(matches!(ch.try_recv(), Err(Error::Empty)));
    assert!(ch.try_send(1).is_ok());
    assert_eq!(ch.try_recv().unwrap(), 1);
    assert!(matches!(ch.try_recv(), Err(Error::Empty)));
}

#[test]
fn zero_capacity_channel_refuses_every_send() {
    let mut ch: Channel<u8, Signal> = Channel::new(0);
    assert!(matches!(ch.try_send(5), Err(Error::Full(5))));
    let (sender, _receiver) = channel::<u8, Signal>(0);
    assert!(matches!(sender.try_send(6), Err(Error::Full(6))));
}

#[test]
fn send_wakes_receivers_until_one_takes_it() {
    let mut ch: Channel<u8, Signal> = Channel::new(1);
    let first = Arc::new(AtomicUsize::new(0));
    let second = Arc::new(AtomicUsize::new(0));
    let third = Arc::new(AtomicUsize::new(0));
    ch.register_receiver_waker(counting(&first, false));
    ch.register_receiver_waker(counting(&second, true));
    ch.register_receiver_waker(counting(&third, true));
    assert!(ch.try_send(1).is_ok());
    assert_eq!(first.load(Ordering::SeqCst), 1);
    assert_eq!(second.load(Ordering::SeqCst), 1);
    assert_eq!(third.load(Ordering::SeqCst), 0);
    // The list was emptied: a second send wakes nobody.
    assert_eq!(ch.try_recv().unwrap(), 1);
    assert!(ch.try_send(2).is_ok());
    assert_eq!(third.load(Ordering::SeqCst), 0);
}

#[test]
fn failed_send_wakes_nobody() {
    let mut ch: Channel<u8, Signal> = Channel::new(1);
    let hits = Arc::new(AtomicUsize::new(0));
    assert!(ch.try_send(1).is_ok());
    ch.register_receiver_waker(counting(&hits, true));
    assert!(matches!(ch.try_send(2), Err(Error::Full(2))));
    assert_eq!(hits.load(Ordering::SeqCst), 0);
}

#[test]
fn receive_wakes_a_waiting_sender() {
    let mut ch: Channel<u8, Signal> = Channel::new(1);
    let hits = Arc::new(AtomicUsize::new(0));
    assert!(ch.try_send(1).is_ok());
    ch.register_sender_waker(counting(&hits, true));
    assert_eq!(ch.try_recv().unwrap(), 1);
    assert_eq!(hits.load(Ordering::SeqCst), 1);
    // An empty channel wakes nobody.
    ch.register_sender_waker(counting(&hits, true));
    assert!(matches!(ch.try_recv(), Err(Error::Empty)));
    assert_eq!(hits.load(Ordering::SeqCst), 1);
}

#[test]
fn wakers_list_wakes_in_order_and_empties() {
    let mut list: Wakers<Signal> = Wakers::new();
    let a = Arc::new(AtomicUsize::new(0));
    let b = Arc::new(AtomicUsize::new(0));
    list.register(counting(&a, false));
    list.register(counting(&b, false));
    assert_eq!(list.wakers.len(), 2);
    list.wake_one();
    assert_eq!(a.load(Ordering::SeqCst), 1);
    assert_eq!(b.load(Ordering::SeqCst), 1);
    assert!(list.wakers.is_empty());
}

#[test]
fn send_step_decides_each_answer() {
    assert!(matches!(send_step::<u8>(Ok(())), SendStep::Done(Ok(()))));
    assert!(matches!(send_step(Err(Error::Full(3u8))), SendStep::Park(3)));
    assert!(matches!(send_step(Err(Error::SendError(4u8))), SendStep::Retry(4)));
    assert!(matches!(send_step::<u8>(Err(Error::Closed)), SendStep::Done(Err(Error::Closed))));
}

#[test]
fn recv_step_decides_each_answer() {
    assert!(matches!(recv_step::<u8>(Ok(5)), RecvStep::Done(Ok(5))));
    assert!(matches!(recv_step::<u8>(Err(Error::Empty)), RecvStep::Park));
    assert!(matches!(recv_step::<u8>(Err(Error::RecvError)), RecvStep::Retry));
    assert!(matches!(recv_step::<u8>(Err(Error::Closed)), RecvStep::Done(Err(Error::Closed))));
}

#[test]
fn async_waker_wakes_its_task() {
    let count = Arc::new(AtomicUsize::new(0));
    let signal = AsyncWaker::new(test_waker(&count));
    assert!(signal.wake());
    assert_eq!(count.load(Ordering::SeqCst), 1);
}

#[test]
fn update_after_wake_wakes_the_new_waker_at_once() {
    let old_count = Arc::new(AtomicUsize::new(0));
    let new_count = Arc::new(AtomicUsize::new(0));
    let mut signal = AsyncWaker::new(test_waker(&old_count));
    let registered = signal.clone();
    assert!(registered.wake());
    assert_eq!(old_count.load(Ordering::SeqCst), 1);
    signal.update_waker(test_waker(&new_count));
    assert_eq!(new_count.load(Ordering::SeqCst), 1);
}

#[test]
fn update_before_wake_does_not_wake() {
    let old_count = Arc::new(AtomicUsize::new(0));
    let new_count = Arc::new(AtomicUsize::new(0));
    let mut signal = AsyncWaker::new(test_waker(&old_count));
    signal.update_waker(test_waker(&new_count));
    assert_eq!(old_count.load(Ordering::SeqCst), 0);
    assert_eq!(new_count.load(Ordering::SeqCst), 0);
    assert!(signal.wake());
    assert_eq!(new_count.load(Ordering::SeqCst), 1);
}

#[test]
fn clones_share_one_channel() {
    let (sender, receiver) = channel::<u16, Signal>(2);
    let sender2 = sender.clone();
    let receiver2 = receiver.clone();
    assert!(sender2.try_send(11).is_ok());
    assert!(sender.try_send(12).is_ok());
    assert!(matches!(sender2.try_send(13), Err(Error::Full(13))));
    assert_eq!(receiver.try_recv().unwrap(), 11);
    assert_eq!(receiver2.try_recv().unwrap(), 12);
    assert!(matches!(receiver.try_recv(), Err(Error::Empty)));
}

#[test]
fn poll_without_item_is_ready() {
    let (sender, _receiver) = channel::<u8, Signal>(1);
    let count = Arc::new(AtomicUsize::new(0));
    let mut fut = worker::async_chan::SendFut::new(&sender, None);
    assert!(matches!(fut.poll_with(&test_waker(&count)), Some(Ok(()))));
}

#[test]
fn bounded_calls_behave_like_plain_ones_within_limits() {
    let mut ch: Channel<u8, Signal> = Channel::new(1);
    assert!(ch.try_send_bounded(3).is_ok());
    assert!(matches!(ch.try_send_bounded(4), Err(Error::Full(4))));
    assert_eq!(ch.try_recv_bounded().unwrap(), 3);
    assert!(matches!(ch.try_recv_bounded(), Err(Error::Empty)));
}

#[test]
fn send_future_keeps_a_refused_item_for_the_next_poll() {
    let (sender, receiver) = channel::<u8, Signal>(1);
    let count = Arc::new(AtomicUsize::new(0));
    let mut fut = worker::async_chan::SendFut::new(&sender, None);
    assert!(fut
        .apply_attempt(Err(Error::Full(5)), &test_waker(&count))
        .is_none());
    assert!(matches!(fut.poll_with(&test_waker(&count)), Some(Ok(()))));
    assert_eq!(receiver.try_recv().unwrap(), 5);
    assert!(matches!(
        fut.apply_attempt(Err(Error::Closed), &test_waker(&count)),
        Some(Err(Error::Closed))
    ));
    assert!(matches!(
        fut.apply_attempt(Ok(()), &test_waker(&count)),
        Some(Ok(()))
    ));
}

#[test]
fn recv_future_hands_out_what_the_attempt_received() {
    let (_sender, receiver) = channel::<u8, Signal>(1);
    let count = Arc::new(AtomicUsize::new(0));
    let mut fut = receiver.recv_async();
    assert!(matches!(
        fut.apply_attempt(Ok(3), &test_waker(&count)),
        Some(Ok(3))
    ));
    assert!(fut
        .apply_attempt(Err(Error::Empty), &test_waker(&count))
        .is_none());
    assert!(fut
        .apply_attempt(Err(Error::RecvError), &test_waker(&count))
        .is_none());
}

#[test]
fn error_is_reachable_from_the_channel_module() {
    let (sender, _receiver) = channel::<u8, Signal>(0);
    assert!(matches!(sender.try_send(1), Err(worker::worker::Error::Full(1))));
}
