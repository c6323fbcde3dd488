use vstd::prelude::*;
use std::task::Waker;

use crate::async_wakers::{clone_waker, AsyncWaker};
use crate::error::Error;
use crate::wakers::WakeSignal;
use crate::worker::{recv_step, send_step, RecvStep, Receiver, SendStep, Sender};

verus! {

/// A send that waits for room in the channel.
pub struct SendFut<'a, T, W> {
    sender: &'a Sender<T, W>,
    async_waker: Option<AsyncWaker>,
    item: Option<T>,
}

impl<'a, T, W> SendFut<'a, T, W> {
    /// The sending end this future sends through.
    pub closed spec fn sender(&self) -> &'a Sender<T, W> {
        self.sender
    }

    /// The item still to be sent, if any.
    pub closed spec fn item(&self) -> Option<T> {
        self.item
    }

    /// The wake signal registered with the channel, once there is one.
    pub closed spec fn async_waker(&self) -> Option<AsyncWaker> {
        self.async_waker
    }

    /// A future that sends `item` through `sender`.
    pub fn new(sender: &'a Sender<T, W>, item: Option<T>) -> (r: Self)
        ensures
            r.sender() == sender,
            r.item() == item,
            r.async_waker() is None,
    {
        SendFut { sender, async_waker: None, item }
    }
}

impl<'a, T, W: WakeSignal + From<AsyncWaker>> SendFut<'a, T, W> {
    /// Makes one attempt to send; `None` means the send must wait.
    ///
    /// When the channel has no room, the item is kept for the next attempt,
    /// the first such attempt registers a wake signal for `waker`'s task with
    /// the channel, and every such attempt points the signal at `waker`.
    /// A future with no item left is done.
    pub fn poll_with(&mut self, waker: &Waker) -> (r: Option<Result<(), Error<T>>>)
        ensures
            final(self).sender() == old(self).sender(),
            old(self).item() is None ==> r == Some(Ok::<(), Error<T>>(())) && final(self).item() is None,
            r is Some ==> r->0 is Ok || r == Some(Err::<(), Error<T>>(Error::Closed)),
            r is Some ==> final(self).item() is None,
            r is None ==> final(self).item() == old(self).item() && final(self).async_waker() is Some,
            old(self).item() is Some && old(self).sender().capacity() == 0 ==> r is None,
            old(self).item() is Some && r is Some ==> old(self).sender().send_answer(
                old(self).item()->0,
                r->0,
            ),
            old(self).item() is Some && r is None ==> old(self).sender().send_answer(
                old(self).item()->0,
                Err::<(), Error<T>>(Error::Full(old(self).item()->0)),
            ),
            old(self).async_waker() is Some ==> final(self).async_waker() is Some
                && final(self).async_waker()->0.flag() == old(self).async_waker()->0.flag(),
    {
        if self.item.is_none() {
            return Some(Ok(()));
        }
        let item = self.item.take().unwrap();
        let attempt = self.sender.try_send(item);
        self.apply_attempt(attempt, waker)
    }

    /// Settles one send attempt that answered `attempt`.
    ///
    /// An answer after which a blocking send would wait or retry keeps the
    /// item that came back, makes sure a wake signal for `waker`'s task is
    /// registered, and answers `None`; any other answer is the poll's answer
    /// and leaves no item.
    pub fn apply_attempt(&mut self, attempt: Result<(), Error<T>>, waker: &Waker) -> (r: Option<
        Result<(), Error<T>>,
    >)
        ensures
            final(self).sender() == old(self).sender(),
            match attempt {
                Err(Error::Full(t)) => r is None && final(self).item() == Some(t)
                    && final(self).async_waker() is Some,
                Err(Error::SendError(t)) => r is None && final(self).item() == Some(t)
                    && final(self).async_waker() is Some,
                other => r == Some(other) && final(self).item() is None,
            },
            old(self).async_waker() is Some ==> final(self).async_waker() is Some
                && final(self).async_waker()->0.flag() == old(self).async_waker()->0.flag(),
    {
        match send_step(attempt) {
            SendStep::Done(answer) => {
                self.item = None;
                Some(answer)
            },
            SendStep::Park(t) => {
                self.item = Some(t);
                self.wait_for(waker);
                None
            },
            SendStep::Retry(t) => {
                self.item = Some(t);
                self.wait_for(waker);
                None
            },
        }
    }

    /// Registers a wake signal for `waker`'s task with the channel if there is
    /// none yet, and points the signal at `waker`.
    fn wait_for(&mut self, waker: &Waker)
        ensures
            final(self).sender == old(self).sender,
            final(self).item == old(self).item,
            final(self).async_waker is Some,
            old(self).async_waker is Some ==> final(self).async_waker->0.flag()
                == old(self).async_waker->0.flag(),
    {
        if self.async_waker.is_none() {
            let async_waker = AsyncWaker::new(clone_waker(waker));
            self.sender.register_waker(W::from(async_waker.clone()));
            self.async_waker = Some(async_waker);
        }
        let mut async_waker = self.async_waker.take().unwrap();
        async_waker.update_waker(clone_waker(waker));
        self.async_waker = Some(async_waker);
    }
}

/// A receive that waits for an item.
pub struct RecvFut<'a, T, W> {
    receiver: &'a Receiver<T, W>,
    async_waker: Option<AsyncWaker>,
}

impl<'a, T, W> RecvFut<'a, T, W> {
    /// The receiving end this future receives through.
    pub closed spec fn receiver(&self) -> &'a Receiver<T, W> {
        self.receiver
    }

    /// The wake signal registered with the channel, once there is one.
    pub closed spec fn async_waker(&self) -> Option<AsyncWaker> {
        self.async_waker
    }

    /// A future that receives through `receiver`.
    pub fn new(receiver: &'a Receiver<T, W>) -> (r: Self)
        ensures
            r.receiver() == receiver,
            r.async_waker() is None,
    {
        RecvFut { receiver, async_waker: None }
    }
}

impl<'a, T, W: WakeSignal + From<AsyncWaker>> RecvFut<'a, T, W> {
    /// Makes one attempt to receive; `None` means the receive must wait.
    ///
    /// When the channel has no item, the first such attempt registers a wake
    /// signal for `waker`'s task with the channel, and every such attempt
    /// points the signal at `waker`.
    pub fn poll_with(&mut self, waker: &Waker) -> (r: Option<Result<T, Error<T>>>)
        requires
            old(self).receiver().capacity() > 0,
        ensures
            final(self).receiver() == old(self).receiver(),
            r is Some ==> r->0 is Ok || r == Some(Err::<T, Error<T>>(Error::Closed)),
            r is None ==> final(self).async_waker() is Some,
            r is Some ==> old(self).receiver().recv_answer(r->0),
            r is None ==> old(self).receiver().recv_answer(Err::<T, Error<T>>(Error::Empty)),
            old(self).async_waker() is Some ==> final(self).async_waker() is Some
                && final(self).async_waker()->0.flag() == old(self).async_waker()->0.flag(),
    {
        let attempt = self.receiver.try_recv();
        self.apply_attempt(attempt, waker)
    }

    /// Settles one receive attempt that answered `attempt`.
    ///
    /// An answer after which a blocking receive would wait or retry makes
    /// sure a wake signal for `waker`'s task is registered and answers
    /// `None`; any other answer, a received item among them, is the poll's
    /// answer.
    pub fn apply_attempt(&mut self, attempt: Result<T, Error<T>>, waker: &Waker) -> (r: Option<
        Result<T, Error<T>>,
    >)
        ensures
            final(self).receiver() == old(self).receiver(),
            match attempt {
                Err(Error::Empty) => r is None && final(self).async_waker() is Some,
                Err(Error::RecvError) => r is None && final(self).async_waker() is Some,
                other => r == Some(other) && final(self).async_waker() == old(self).async_waker(),
            },
            old(self).async_waker() is Some ==> final(self).async_waker() is Some
                && final(self).async_waker()->0.flag() == old(self).async_waker()->0.flag(),
    {
        match recv_step(attempt) {
            RecvStep::Done(answer) => Some(answer),
            RecvStep::Park => {
                self.wait_for(waker);
                None
            },
            RecvStep::Retry => {
                self.wait_for(waker);
                None
            },
        }
    }

    /// Registers a wake signal for `waker`'s task with the channel if there is
    /// none yet, and points the signal at `waker`.
    fn wait_for(&mut self, waker: &Waker)
        ensures
            final(self).receiver == old(self).receiver,
            final(self).async_waker is Some,
            old(self).async_waker is Some ==> final(self).async_waker->0.flag()
                == old(self).async_waker->0.flag(),
    {
        if self.async_waker.is_none() {
            let async_waker = AsyncWaker::new(clone_waker(waker));
            self.receiver.register_waker(W::from(async_waker.clone()));
            self.async_waker = Some(async_waker);
        }
        let mut async_waker = self.async_waker.take().unwrap();
        async_waker.update_waker(clone_waker(waker));
        self.async_waker = Some(async_waker);
    }
}

} // verus!
