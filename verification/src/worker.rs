use vstd::prelude::*;
use vstd::rwlock::{RwLock, RwLockPredicate};
use std::sync::Arc;
use vstd::arithmetic::div_mod::{
    lemma_fundamental_div_mod, lemma_mod_add_multiples_vanish, lemma_small_mod,
};

use crate::async_chan::{RecvFut, SendFut};
pub use crate::error::Error;
use crate::model::{recv_model, send_model};
use crate::shared::share;
use crate::wakers::{law_wake_round_is_prefix, wake_round, WakeSignal, Wakers};

verus! {

/// Two positions closer than `cap` fall on different slots.
proof fn lemma_mod_distinct(p: int, q: int, cap: int)
    requires
        0 < cap,
        0 <= p < q < p + cap,
    ensures
        p % cap != q % cap,
{
    lemma_fundamental_div_mod(p, cap);
    lemma_fundamental_div_mod(q, cap);
    let a = p / cap;
    let b = q / cap;
    let r = p % cap;
    if r == q % cap {
        assert(false) by (nonlinear_arith)
            requires
                0 < cap,
                0 < q - p < cap,
                p == cap * a + r,
                q == cap * b + r,
        ;
    }
}

/// One slot of the ring: its stamp and the item it holds, if any.
struct Data<T> {
    stamp: usize,
    data: Option<T>,
}

/// A bounded FIFO channel over a ring of stamped slots.
///
/// The item sent at position `p` goes to slot `p % capacity`. A slot whose
/// stamp is `p` waits for the send at position `p`; one whose stamp is `p + 1`
/// holds the item sent at position `p`, which the receive at position `p`
/// takes, leaving the stamp `p + capacity` for the next round.
pub struct Channel<T, W> {
    head: usize,
    tail: usize,
    slots: Vec<Data<T>>,
    capacity: usize,
    send_wakers: Wakers<W>,
    recv_wakers: Wakers<W>,
}

impl<T, W> Channel<T, W> {
    /// The slot that position `p` falls on.
    spec fn slot(&self, p: int) -> Data<T> {
        self.slots@[p % (self.capacity as int)]
    }

    /// The ring's invariant: the positions `head..tail` hold the queued items,
    /// and the positions `tail..head + capacity` are free for the next sends.
    pub closed spec fn wf(&self) -> bool {
        &&& self.slots@.len() == self.capacity
        &&& self.head <= self.tail <= self.head + self.capacity
        &&& forall|p: int|
            #![trigger self.slot(p)]
            self.head <= p < self.tail ==> self.slot(p).stamp == p + 1 && self.slot(p).data is Some
        &&& forall|p: int|
            #![trigger self.slot(p)]
            self.tail <= p < self.head + self.capacity ==> self.slot(p).stamp == p
                && self.slot(p).data is None
    }

    /// The items in the channel, oldest first.
    pub closed spec fn view(&self) -> Seq<T> {
        Seq::new((self.tail - self.head) as nat, |k: int| self.slot(self.head + k).data->0)
    }

    /// How many items the channel can hold.
    pub closed spec fn capacity(&self) -> nat {
        self.capacity as nat
    }

    /// How many sends have succeeded since the channel was made.
    pub closed spec fn sent_count(&self) -> nat {
        self.tail as nat
    }

    /// How many receives have succeeded since the channel was made.
    pub closed spec fn received_count(&self) -> nat {
        self.head as nat
    }

    /// The parties waiting for room, in the order in which they registered.
    pub closed spec fn sender_wakers(&self) -> Seq<W> {
        self.send_wakers@
    }

    /// The parties waiting for an item, in the order in which they registered.
    pub closed spec fn receiver_wakers(&self) -> Seq<W> {
        self.recv_wakers@
    }

    /// The senders that the latest successful receive handed to `wake`, in order.
    pub closed spec fn woken_senders(&self) -> Seq<W> {
        self.send_wakers.last_woken()
    }

    /// The receivers that the latest successful send handed to `wake`, in order.
    pub closed spec fn woken_receivers(&self) -> Seq<W> {
        self.recv_wakers.last_woken()
    }

    /// Whether the position counters leave room for the next send.
    pub open spec fn send_in_range(&self) -> bool {
        self@.len() < self.capacity() ==> self.sent_count() < usize::MAX
    }

    /// Whether the position counters leave room for the next receive.
    pub open spec fn recv_in_range(&self) -> bool {
        &&& self.received_count() < usize::MAX
        &&& self@.len() > 0 ==> self.received_count() + self.capacity() <= usize::MAX
    }

    /// Two channels whose rings agree hold the same items and both keep
    /// the invariant.
    proof fn lemma_same_ring(&self, other: &Self)
        requires
            self.wf(),
            self.head == other.head,
            self.tail == other.tail,
            self.slots@ == other.slots@,
            self.capacity == other.capacity,
        ensures
            other.wf(),
            other@ == self@,
    {
        assert forall|p: int| #![trigger other.slot(p)] true implies other.slot(p) == self.slot(p) by {}
        assert(other@ =~= self@);
    }

    proof fn lemma_len(&self)
        requires
            self.wf(),
        ensures
            self@.len() == self.tail - self.head,
            self@.len() <= self.capacity(),
            self.sent_count() == self.received_count() + self@.len(),
    {
    }

}

impl<T, W: WakeSignal> Channel<T, W> {
    /// Creates an empty channel with room for `capacity` items.
    pub fn new(capacity: usize) -> (c: Self)
        ensures
            c.wf(),
            c@ == Seq::<T>::empty(),
            c.capacity() == capacity,
            c.sent_count() == 0,
            c.received_count() == 0,
            c.sender_wakers() == Seq::<W>::empty(),
            c.receiver_wakers() == Seq::<W>::empty(),
            c.woken_senders() == Seq::<W>::empty(),
            c.woken_receivers() == Seq::<W>::empty(),
    {
        let mut slots: Vec<Data<T>> = Vec::new();
        let mut i: usize = 0;
        while i < capacity
            invariant
                i <= capacity,
                slots@.len() == i,
                forall|j: int| 0 <= j < i ==> #[trigger] slots@[j].stamp == j && slots@[j].data is None,
            decreases capacity - i,
        {
            let ghost prev = slots@;
            slots.push(Data { stamp: i, data: None });
            assert(forall|j: int| 0 <= j < i ==> slots@[j] == prev[j]);
            i = i + 1;
        }
        let c = Channel {
            head: 0,
            tail: 0,
            slots,
            capacity,
            send_wakers: Wakers::new(),
            recv_wakers: Wakers::new(),
        };
        assert forall|p: int| #![trigger c.slot(p)] 0 <= p < capacity implies c.slot(p).stamp == p
            && c.slot(p).data is None by {
            lemma_small_mod(p as nat, capacity as nat);
        }
        assert(c@ =~= Seq::<T>::empty());
        c
    }

    /// Adds `waker` to the parties waiting for room.
    pub fn register_sender_waker(&mut self, waker: W)
        requires
            old(self).wf(),
        ensures
            final(self).wf(),
            final(self)@ == old(self)@,
            final(self).capacity() == old(self).capacity(),
            final(self).sent_count() == old(self).sent_count(),
            final(self).received_count() == old(self).received_count(),
            final(self).sender_wakers() == old(self).sender_wakers().push(waker),
            final(self).receiver_wakers() == old(self).receiver_wakers(),
            final(self).woken_senders() == old(self).woken_senders(),
            final(self).woken_receivers() == old(self).woken_receivers(),
    {
        let ghost pre = *self;
        self.send_wakers.register(waker);
        proof {
            pre.lemma_same_ring(self);
        }
    }

    /// Adds `waker` to the parties waiting for an item.
    pub fn register_receiver_waker(&mut self, waker: W)
        requires
            old(self).wf(),
        ensures
            final(self).wf(),
            final(self)@ == old(self)@,
            final(self).capacity() == old(self).capacity(),
            final(self).sent_count() == old(self).sent_count(),
            final(self).received_count() == old(self).received_count(),
            final(self).sender_wakers() == old(self).sender_wakers(),
            final(self).receiver_wakers() == old(self).receiver_wakers().push(waker),
            final(self).woken_senders() == old(self).woken_senders(),
            final(self).woken_receivers() == old(self).woken_receivers(),
    {
        let ghost pre = *self;
        self.recv_wakers.register(waker);
        proof {
            pre.lemma_same_ring(self);
        }
    }

    /// `post` is what a send of `item` that answers `r` makes of `pre`:
    /// the queue and the answer follow [`send_model`]; a successful send
    /// counts one more send, empties the receivers' list and wakes its
    /// [`wake_round`]; a refused one changes nothing else.
    pub open spec fn send_transition(pre: Self, post: Self, item: T, r: Result<(), Error<T>>) -> bool {
        &&& post@ == send_model(pre@, pre.capacity(), item).0
        &&& r == send_model(pre@, pre.capacity(), item).1
        &&& post.capacity() == pre.capacity()
        &&& post.received_count() == pre.received_count()
        &&& post.sent_count() == pre.sent_count() + (if r is Ok { 1nat } else { 0nat })
        &&& post.sender_wakers() == pre.sender_wakers()
        &&& post.receiver_wakers() == (if r is Ok { Seq::<W>::empty() } else { pre.receiver_wakers() })
        &&& post.woken_senders() == pre.woken_senders()
        &&& post.woken_receivers() == (if r is Ok { wake_round(pre.receiver_wakers()) } else { pre.woken_receivers() })
    }

    /// `post` is what a receive that answers `r` makes of `pre`: the queue
    /// and the answer follow [`recv_model`]; a successful receive counts one
    /// more receive, empties the senders' list and wakes its [`wake_round`];
    /// a refused one changes nothing else.
    pub open spec fn recv_transition(pre: Self, post: Self, r: Result<T, Error<T>>) -> bool {
        &&& post@ == recv_model(pre@).0
        &&& r == recv_model(pre@).1
        &&& post.capacity() == pre.capacity()
        &&& post.sent_count() == pre.sent_count()
        &&& post.received_count() == pre.received_count() + (if r is Ok { 1nat } else { 0nat })
        &&& post.receiver_wakers() == pre.receiver_wakers()
        &&& post.sender_wakers() == (if r is Ok { Seq::<W>::empty() } else { pre.sender_wakers() })
        &&& post.woken_receivers() == pre.woken_receivers()
        &&& post.woken_senders() == (if r is Ok { wake_round(pre.sender_wakers()) } else { pre.woken_senders() })
    }

    /// `post` is what a send of `item` that answers `r` makes of `pre` when
    /// the position counters are checked first: past their limit the answer
    /// is `Error::Closed` and nothing changes; otherwise [`Self::send_transition`].
    pub open spec fn bounded_send_transition(pre: Self, post: Self, item: T, r: Result<(), Error<T>>) -> bool {
        if pre.send_in_range() {
            Self::send_transition(pre, post, item, r)
        } else {
            r == Err::<(), Error<T>>(Error::Closed) && post == pre
        }
    }

    /// `post` is what a receive that answers `r` makes of `pre` when the
    /// position counters are checked first: past their limit the answer is
    /// `Error::Closed` and nothing changes; otherwise [`Self::recv_transition`].
    pub open spec fn bounded_recv_transition(pre: Self, post: Self, r: Result<T, Error<T>>) -> bool {
        if pre.recv_in_range() {
            Self::recv_transition(pre, post, r)
        } else {
            r == Err::<T, Error<T>>(Error::Closed) && post == pre
        }
    }

    /// Sends `item` if the channel has room.
    ///
    /// On success the item goes to the back of the queue and the waiting
    /// receivers are woken; when the channel is full the item comes back
    /// in `Error::Full` and nothing changes.
    pub fn try_send(&mut self, item: T) -> (r: Result<(), Error<T>>)
        requires
            old(self).wf(),
            old(self).send_in_range(),
        ensures
            final(self).wf(),
            Self::send_transition(*old(self), *final(self), item, r),
    {
        proof {
            self.lemma_len();
        }
        if self.capacity == 0 {
            return Err(Error::Full(item));
        }
        let head = self.head;
        let tail = self.tail;
        if tail.wrapping_sub(head) >= self.capacity {
            return Err(Error::Full(item));
        }
        let pos = tail;
        let index = pos % self.capacity;
        let slot_seq = self.slots[index].stamp;
        assert(self.slot(pos as int).stamp == pos);
        if slot_seq == pos {
            let ghost pre = *self;
            self.tail = pos + 1;
            self.slots.set(index, Data { stamp: pos + 1, data: Some(item) });
            proof {
                let cap = self.capacity as int;
                assert forall|p: int| #![trigger self.slot(p)] self.head <= p < self.head + cap
                    && p != pos implies self.slot(p) == pre.slot(p) by {
                    if p < pos {
                        lemma_mod_distinct(p, pos as int, cap);
                    } else {
                        lemma_mod_distinct(pos as int, p, cap);
                    }
                }
                assert(self.slot(pos as int).data == Some(item));
                assert(self@ =~= pre@.push(item)) by {
                    assert forall|k: int| 0 <= k < pre@.len() implies #[trigger] self@[k]
                        == pre@[k] by {
                        assert(self.slot(self.head + k) == pre.slot(self.head + k));
                    }
                }
            }
            let ghost mid = *self;
            let _ = self.wake_receiver();
            proof {
                mid.lemma_same_ring(self);
            }
            return Ok(());
        }
        Err(Error::SendError(item))
    }

    /// Takes the oldest item out of the channel, if there is one.
    ///
    /// On success the waiting senders are woken; on an empty channel the
    /// answer is `Error::Empty` and nothing changes.
    pub fn try_recv(&mut self) -> (r: Result<T, Error<T>>)
        requires
            old(self).wf(),
            old(self).capacity() > 0,
            old(self).recv_in_range(),
        ensures
            final(self).wf(),
            Self::recv_transition(*old(self), *final(self), r),
    {
        proof {
            self.lemma_len();
        }
        let pos = self.head;
        let index = pos % self.capacity;
        let slot_seq = self.slots[index].stamp;
        assert(self.slot(pos as int) == self.slots@[index as int]);
        if slot_seq == pos + 1 {
            let ghost pre = *self;
            assert(pos < self.tail);
            let mut taken = Data { stamp: pos + self.capacity, data: None };
            self.head = pos + 1;
            self.slots.set_and_swap(index, &mut taken);
            proof {
                let cap = self.capacity as int;
                assert forall|p: int| #![trigger self.slot(p)] pos < p < pos + cap
                    implies self.slot(p) == pre.slot(p) by {
                    lemma_mod_distinct(pos as int, p, cap);
                }
                lemma_mod_add_multiples_vanish(pos as int, cap);
                assert(self.slot(pos + cap) == Data::<T> { stamp: (pos + self.capacity) as usize, data: None });
                assert(self@ =~= pre@.drop_first()) by {
                    assert forall|k: int| 0 <= k < self@.len() implies #[trigger] self@[k]
                        == pre@.drop_first()[k] by {
                        assert(self.slot(self.head + k) == pre.slot(pre.head + (k + 1)));
                    }
                }
            }
            match taken.data {
                Some(val) => {
                    let ghost mid = *self;
                    let _ = self.wake_sender();
                    proof {
                        mid.lemma_same_ring(self);
                    }
                    return Ok(val);
                },
                None => {
                    return Err(Error::RecvError);
                },
            }
        } else {
            assert(pos == self.tail);
            return Err(Error::Empty);
        }
    }

    /// How many items the channel can hold.
    pub fn get_capacity(&self) -> (c: usize)
        ensures
            c == self.capacity(),
    {
        self.capacity
    }

    /// Sends `item` when the position counters allow one more send; when
    /// they do not, answers `Error::Closed` and changes nothing.
    pub fn try_send_bounded(&mut self, item: T) -> (r: Result<(), Error<T>>)
        requires
            old(self).wf(),
        ensures
            final(self).wf(),
            !old(self).send_in_range() ==> r == Err::<(), Error<T>>(Error::Closed) && *final(self)
                == *old(self),
            old(self).send_in_range() ==> Self::send_transition(*old(self), *final(self), item, r),
            Self::bounded_send_transition(*old(self), *final(self), item, r),
    {
        if !self.send_within_limits() {
            return Err(Error::Closed);
        }
        self.try_send(item)
    }

    /// Receives when the position counters allow one more receive; when
    /// they do not, answers `Error::Closed` and changes nothing.
    pub fn try_recv_bounded(&mut self) -> (r: Result<T, Error<T>>)
        requires
            old(self).wf(),
            old(self).capacity() > 0,
        ensures
            final(self).wf(),
            !old(self).recv_in_range() ==> r == Err::<T, Error<T>>(Error::Closed) && *final(self)
                == *old(self),
            old(self).recv_in_range() ==> Self::recv_transition(*old(self), *final(self), r),
            Self::bounded_recv_transition(*old(self), *final(self), r),
    {
        if !self.recv_within_limits() {
            return Err(Error::Closed);
        }
        self.try_recv()
    }

    /// Tells whether the position counters leave room for the next send.
    fn send_within_limits(&self) -> (b: bool)
        requires
            self.wf(),
        ensures
            b == self.send_in_range(),
    {
        self.tail - self.head >= self.capacity || self.tail < usize::MAX
    }

    /// Tells whether the position counters leave room for the next receive.
    fn recv_within_limits(&self) -> (b: bool)
        requires
            self.wf(),
        ensures
            b == self.recv_in_range(),
    {
        self.head < usize::MAX && (self.tail == self.head || self.head <= usize::MAX - self.capacity)
    }

    /// Wakes the parties waiting for room, in order, until one wake-up is
    /// delivered; returns that one's position, or how many were waiting when
    /// none was delivered.
    fn wake_sender(&mut self) -> (k: usize)
        ensures
            final(self).head == old(self).head,
            final(self).tail == old(self).tail,
            final(self).slots == old(self).slots,
            final(self).capacity == old(self).capacity,
            final(self).recv_wakers == old(self).recv_wakers,
            final(self).send_wakers@ == Seq::<W>::empty(),
            k <= old(self).send_wakers@.len(),
            forall|i: int| 0 <= i < k ==> !(#[trigger] old(self).send_wakers@[i]).delivers(),
            k < old(self).send_wakers@.len() ==> old(self).send_wakers@[k as int].delivers(),
            final(self).send_wakers.last_woken() == wake_round(old(self).send_wakers@),
    {
        self.send_wakers.wake_one()
    }

    /// Wakes the parties waiting for an item, in order, until one wake-up is
    /// delivered; returns that one's position, or how many were waiting when
    /// none was delivered.
    fn wake_receiver(&mut self) -> (k: usize)
        ensures
            final(self).head == old(self).head,
            final(self).tail == old(self).tail,
            final(self).slots == old(self).slots,
            final(self).capacity == old(self).capacity,
            final(self).send_wakers == old(self).send_wakers,
            final(self).recv_wakers@ == Seq::<W>::empty(),
            k <= old(self).recv_wakers@.len(),
            forall|i: int| 0 <= i < k ==> !(#[trigger] old(self).recv_wakers@[i]).delivers(),
            k < old(self).recv_wakers@.len() ==> old(self).recv_wakers@[k as int].delivers(),
            final(self).recv_wakers.last_woken() == wake_round(old(self).recv_wakers@),
    {
        self.recv_wakers.wake_one()
    }
}

/// At every moment the channel holds exactly the items sent and not yet
/// received, and never more than its capacity.
pub proof fn law_counts<T, W>(c: &Channel<T, W>)
    requires
        c.wf(),
    ensures
        c.sent_count() == c.received_count() + c@.len(),
        c@.len() <= c.capacity(),
{
    c.lemma_len();
}

/// A successful send wakes the receiver that has waited longest.
pub proof fn law_send_wakes_waiting_receiver<T, W: WakeSignal>(
    pre: Channel<T, W>,
    post: Channel<T, W>,
    item: T,
    r: Result<(), Error<T>>,
)
    requires
        Channel::send_transition(pre, post, item, r),
        r is Ok,
        pre.receiver_wakers().len() > 0,
    ensures
        post.woken_receivers().len() > 0,
        post.woken_receivers()[0] == pre.receiver_wakers()[0],
{
    law_wake_round_is_prefix(pre.receiver_wakers());
}

/// A successful receive wakes the sender that has waited longest.
pub proof fn law_recv_wakes_waiting_sender<T, W: WakeSignal>(
    pre: Channel<T, W>,
    post: Channel<T, W>,
    r: Result<T, Error<T>>,
)
    requires
        Channel::recv_transition(pre, post, r),
        r is Ok,
        pre.sender_wakers().len() > 0,
    ensures
        post.woken_senders().len() > 0,
        post.woken_senders()[0] == pre.sender_wakers()[0],
{
    law_wake_round_is_prefix(pre.sender_wakers());
}

/// What is sent to an empty channel is what the next receive gives back,
/// and the channel is empty again afterwards.
pub proof fn law_channel_round_trip<T, W: WakeSignal>(
    pre: Channel<T, W>,
    mid: Channel<T, W>,
    post: Channel<T, W>,
    item: T,
    sent: Result<(), Error<T>>,
    received: Result<T, Error<T>>,
)
    requires
        pre@.len() == 0,
        Channel::send_transition(pre, mid, item, sent),
        sent is Ok,
        Channel::recv_transition(mid, post, received),
    ensures
        received == Ok::<T, Error<T>>(item),
        post@.len() == 0,
{
    assert(mid@ =~= seq![item]);
}

/// A receive takes the oldest item when there is one, whatever lap of the
/// ring the channel is on, and answers `Empty` only on an empty channel.
pub proof fn law_recv_takes_oldest<T, W: WakeSignal>(
    pre: Channel<T, W>,
    post: Channel<T, W>,
    r: Result<T, Error<T>>,
)
    requires
        Channel::recv_transition(pre, post, r),
    ensures
        r is Ok <==> pre@.len() > 0,
        r is Err ==> r == Err::<T, Error<T>>(Error::Empty) && post@ == pre@,
        pre@.len() > 0 ==> r == Ok::<T, Error<T>>(pre@[0]) && post@ == pre@.subrange(1, pre@.len() as int)
            && post.received_count() == pre.received_count() + 1,
{
}

/// A send appends its item at the back exactly when the channel has room;
/// otherwise it hands the item back in `Full` and the queue stays as it was.
pub proof fn law_send_appends_or_refuses<T, W: WakeSignal>(
    pre: Channel<T, W>,
    post: Channel<T, W>,
    item: T,
    r: Result<(), Error<T>>,
)
    requires
        Channel::send_transition(pre, post, item, r),
    ensures
        r is Ok <==> pre@.len() < pre.capacity(),
        r is Ok ==> post@.len() == pre@.len() + 1 && post@[pre@.len() as int] == item
            && post@.subrange(0, pre@.len() as int) == pre@
            && post.sent_count() == pre.sent_count() + 1,
        r is Err ==> r == Err::<(), Error<T>>(Error::Full(item)) && post@ == pre@,
{
    if r is Ok {
        assert(post@.subrange(0, pre@.len() as int) =~= pre@);
    }
}

/// With the counters checked first, a send answers `Closed` exactly when the
/// channel has room but its send counter has reached the largest `usize`;
/// otherwise it is a plain send.
pub proof fn law_send_closed_only_at_limit<T, W: WakeSignal>(
    pre: Channel<T, W>,
    post: Channel<T, W>,
    item: T,
    r: Result<(), Error<T>>,
)
    requires
        Channel::bounded_send_transition(pre, post, item, r),
    ensures
        r == Err::<(), Error<T>>(Error::Closed) <==> (pre@.len() < pre.capacity()
            && pre.sent_count() == usize::MAX),
        pre.sent_count() < usize::MAX ==> Channel::send_transition(pre, post, item, r),
{
}

/// With the counters checked first, a receive answers `Closed` exactly when
/// its counters are at their limit; below it, it is a plain receive.
pub proof fn law_recv_closed_only_at_limit<T, W: WakeSignal>(
    pre: Channel<T, W>,
    post: Channel<T, W>,
    r: Result<T, Error<T>>,
)
    requires
        Channel::bounded_recv_transition(pre, post, r),
    ensures
        r == Err::<T, Error<T>>(Error::Closed) <==> !pre.recv_in_range(),
        pre.recv_in_range() ==> Channel::recv_transition(pre, post, r),
{
}

/// What a receive through a handle gives is the oldest item of a state of
/// the shared channel, and `Empty` is answered only for a state that holds
/// no item.
pub proof fn law_handle_recv<T, W: WakeSignal>(rx: Receiver<T, W>, r: Result<T, Error<T>>)
    requires
        rx.recv_answer(r),
    ensures
        r matches Ok(x) ==> exists|c: Channel<T, W>| rx.chan.inv(c) && c@.len() > 0 && c@[0] == x,
        r == Err::<T, Error<T>>(Error::Empty) ==> exists|c: Channel<T, W>| rx.chan.inv(c) && c@.len() == 0,
{
    let (pre, post) = choose|pre: Channel<T, W>, post: Channel<T, W>|
        #[trigger] Channel::bounded_recv_transition(pre, post, r) && rx.chan.inv(pre) && rx.chan.inv(post);
    if r is Ok {
        assert(rx.chan.inv(pre) && pre@.len() > 0 && pre@[0] == r->Ok_0);
    }
    if r == Err::<T, Error<T>>(Error::Empty) {
        assert(rx.chan.inv(pre) && pre@.len() == 0);
    }
}

/// A send through a handle that answers `Ok` appended its item to a state of
/// the shared channel that had room; one answering `Full` met a full state
/// and handed the same item back.
pub proof fn law_handle_send<T, W: WakeSignal>(tx: Sender<T, W>, item: T, r: Result<(), Error<T>>)
    requires
        tx.send_answer(item, r),
    ensures
        r is Ok ==> exists|c: Channel<T, W>, d: Channel<T, W>| tx.chan.inv(c) && tx.chan.inv(d)
            && c@.len() < c.capacity() && d@ == c@.push(item),
        r matches Err(Error::Full(x)) ==> x == item && exists|c: Channel<T, W>| tx.chan.inv(c)
            && c@.len() >= c.capacity(),
        r is Ok || r == Err::<(), Error<T>>(Error::Full(item)) || r == Err::<(), Error<T>>(Error::Closed),
{
    let (pre, post) = choose|pre: Channel<T, W>, post: Channel<T, W>|
        #[trigger] Channel::bounded_send_transition(pre, post, item, r) && tx.chan.inv(pre) && tx.chan.inv(post);
    if r is Ok {
        assert(tx.chan.inv(pre) && tx.chan.inv(post) && pre@.len() < pre.capacity() && post@ == pre@.push(item));
    }
    if r is Err && r->Err_0 is Full {
        assert(tx.chan.inv(pre) && pre@.len() >= pre.capacity());
    }
}

/// The lock invariant of a shared channel: the ring keeps its invariant and
/// the capacity the channel was made with.
pub struct ChannelInv {
    pub capacity: usize,
}

impl<T, W> RwLockPredicate<Channel<T, W>> for ChannelInv {
    open spec fn inv(self, c: Channel<T, W>) -> bool {
        c.wf() && c.capacity() == self.capacity
    }
}

/// The sending end of a channel; clones share the same channel.
pub struct Sender<T, W> {
    pub chan: Arc<RwLock<Channel<T, W>, ChannelInv>>,
}

/// The receiving end of a channel; clones share the same channel.
pub struct Receiver<T, W> {
    pub chan: Arc<RwLock<Channel<T, W>, ChannelInv>>,
}

impl<T, W> Sender<T, W> {
    /// How many items the channel can hold.
    pub open spec fn capacity(&self) -> nat {
        self.chan.pred().capacity as nat
    }
}

impl<T, W: WakeSignal> Sender<T, W> {
    /// `r` is what one send of `item` answers on the shared channel: there
    /// is a state the channel's lock may hold from which one send (counters
    /// checked first) answers `r` and leaves a state the lock may hold.
    pub open spec fn send_answer(&self, item: T, r: Result<(), Error<T>>) -> bool {
        exists|pre: Channel<T, W>, post: Channel<T, W>|
            #[trigger] Channel::bounded_send_transition(pre, post, item, r) && self.chan.inv(pre)
                && self.chan.inv(post)
    }

    /// How many items the channel can hold.
    pub fn get_capacity(&self) -> (c: usize)
        ensures
            c == self.capacity(),
    {
        let reader = self.chan.acquire_read();
        let c = reader.borrow().get_capacity();
        reader.release_read();
        c
    }

    /// Sends `item` if the channel has room at this moment.
    ///
    /// Other handles work on the same channel at the same time, so whether
    /// there is room is theirs to decide too; a channel made with no room
    /// always answers `Error::Full`. The item comes back in `Error::Full`, and
    /// `Error::Closed` comes only once the channel's position counter has
    /// reached the largest `usize`.
    pub fn try_send(&self, item: T) -> (r: Result<(), Error<T>>)
        ensures
            r is Ok || r == Err::<(), Error<T>>(Error::Full(item)) || r == Err::<(), Error<T>>(Error::Closed),
            self.capacity() == 0 ==> r == Err::<(), Error<T>>(Error::Full(item)),
            self.send_answer(item, r),
    {
        let (mut ch, handle) = self.chan.acquire_write();
        let ghost pre = ch;
        let r = ch.try_send_bounded(item);
        assert(Channel::bounded_send_transition(pre, ch, item, r));
        handle.release_write(ch);
        r
    }

    /// Adds `waker` to the parties waiting for room.
    pub fn register_waker(&self, waker: W) {
        let (mut ch, handle) = self.chan.acquire_write();
        ch.register_sender_waker(waker);
        handle.release_write(ch);
    }

    /// A future that sends `item` once the channel has room.
    pub fn send_async(&self, item: T) -> (f: SendFut<'_, T, W>)
        ensures
            f.sender() == self,
            f.item() == Some(item),
            f.async_waker() is None,
    {
        SendFut::new(self, Some(item))
    }
}

impl<T, W> Receiver<T, W> {
    /// How many items the channel can hold.
    pub open spec fn capacity(&self) -> nat {
        self.chan.pred().capacity as nat
    }
}

impl<T, W: WakeSignal> Receiver<T, W> {
    /// `r` is what one receive answers on the shared channel: there is a
    /// state the channel's lock may hold from which one receive (counters
    /// checked first) answers `r` and leaves a state the lock may hold.
    pub open spec fn recv_answer(&self, r: Result<T, Error<T>>) -> bool {
        exists|pre: Channel<T, W>, post: Channel<T, W>|
            #[trigger] Channel::bounded_recv_transition(pre, post, r) && self.chan.inv(pre)
                && self.chan.inv(post)
    }

    /// How many items the channel can hold.
    pub fn get_capacity(&self) -> (c: usize)
        ensures
            c == self.capacity(),
    {
        let reader = self.chan.acquire_read();
        let c = reader.borrow().get_capacity();
        reader.release_read();
        c
    }

    /// Takes the oldest item out of the channel if there is one at this
    /// moment.
    ///
    /// Other handles work on the same channel at the same time, so whether
    /// an item is there is theirs to decide too. `Error::Closed` comes only
    /// once the channel's position counter has reached its limit.
    pub fn try_recv(&self) -> (r: Result<T, Error<T>>)
        requires
            self.capacity() > 0,
        ensures
            r is Ok || r == Err::<T, Error<T>>(Error::Empty) || r == Err::<T, Error<T>>(Error::Closed),
            self.recv_answer(r),
    {
        let (mut ch, handle) = self.chan.acquire_write();
        let ghost pre = ch;
        let r = ch.try_recv_bounded();
        assert(Channel::bounded_recv_transition(pre, ch, r));
        handle.release_write(ch);
        r
    }

    /// Adds `waker` to the parties waiting for an item.
    pub fn register_waker(&self, waker: W) {
        let (mut ch, handle) = self.chan.acquire_write();
        ch.register_receiver_waker(waker);
        handle.release_write(ch);
    }

    /// A future that receives the next item.
    pub fn recv_async(&self) -> (f: RecvFut<'_, T, W>)
        ensures
            f.receiver() == self,
            f.async_waker() is None,
    {
        RecvFut::new(self)
    }
}

impl<T, W> Clone for Sender<T, W> {
    fn clone(&self) -> (r: Self)
        ensures
            r.chan == self.chan,
    {
        Sender { chan: share(&self.chan) }
    }
}

impl<T, W> Clone for Receiver<T, W> {
    fn clone(&self) -> (r: Self)
        ensures
            r.chan == self.chan,
    {
        Receiver { chan: share(&self.chan) }
    }
}

/// Makes a channel with room for `capacity` items and returns its two ends.
pub fn channel<T, W: WakeSignal>(capacity: usize) -> (r: (Sender<T, W>, Receiver<T, W>))
    ensures
        r.0.chan == r.1.chan,
        r.0.capacity() == capacity,
        r.1.capacity() == capacity,
{
    let ch: Channel<T, W> = Channel::new(capacity);
    let chan = Arc::new(RwLock::new(ch, Ghost(ChannelInv { capacity })));
    (Sender { chan: share(&chan) }, Receiver { chan })
}

/// What a blocking send does after one attempt.
pub enum SendStep<T> {
    /// The send is over, with this answer.
    Done(Result<(), Error<T>>),
    /// The channel is full: register a waker, sleep, then try again with the item.
    Park(T),
    /// A competing sender took the slot: try again at once with the item.
    Retry(T),
}

/// What a blocking receive does after one attempt.
pub enum RecvStep<T> {
    /// The receive is over, with this answer.
    Done(Result<T, Error<T>>),
    /// The channel is empty: register a waker, sleep, then try again.
    Park,
    /// A competing receiver took the slot: try again at once.
    Retry,
}

/// Decides the next move of a blocking send from the answer of one attempt.
pub fn send_step<T>(attempt: Result<(), Error<T>>) -> (s: SendStep<T>)
    ensures
        match attempt {
            Err(Error::Full(t)) => s == SendStep::Park(t),
            Err(Error::SendError(t)) => s == SendStep::Retry(t),
            other => s == SendStep::Done(other),
        },
{
    match attempt {
        Err(Error::Full(t)) => SendStep::Park(t),
        Err(Error::SendError(t)) => SendStep::Retry(t),
        other => SendStep::Done(other),
    }
}

/// Decides the next move of a blocking receive from the answer of one attempt.
pub fn recv_step<T>(attempt: Result<T, Error<T>>) -> (s: RecvStep<T>)
    ensures
        match attempt {
            Err(Error::Empty) => s == RecvStep::<T>::Park,
            Err(Error::RecvError) => s == RecvStep::<T>::Retry,
            other => s == RecvStep::Done(other),
        },
{
    match attempt {
        Err(Error::Empty) => RecvStep::Park,
        Err(Error::RecvError) => RecvStep::Retry,
        other => RecvStep::Done(other),
    }
}

} // verus!
