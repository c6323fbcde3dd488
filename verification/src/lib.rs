//! A bounded multi-producer, multi-consumer channel.
//!
//! The slot ring in [`worker::Channel`] follows Vyukov's stamped-slot queue:
//! every slot carries a stamp that tells whether it is ready to be written at
//! a given send position or ready to be read at a given receive position.
//! Handles ([`worker::Sender`], [`worker::Receiver`]) share one channel behind
//! a lock; parked senders and receivers are woken through the
//! [`wakers::WakeSignal`] trait, and tasks through [`async_wakers::AsyncWaker`].
pub mod async_chan;
pub mod async_wakers;
pub mod error;
pub mod model;
mod shared;
pub mod wakers;
pub mod worker;
