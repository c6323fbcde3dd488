use vstd::prelude::*;

use crate::error::Error;

verus! {

/// What a queue holding `q` becomes, and what a send of `item` answers,
/// when the channel has room for `capacity` items.
pub open spec fn send_model<T>(q: Seq<T>, capacity: nat, item: T) -> (Seq<T>, Result<(), Error<T>>) {
    if q.len() < capacity {
        (q.push(item), Ok(()))
    } else {
        (q, Err(Error::Full(item)))
    }
}

/// What a queue holding `q` becomes, and what a receive answers.
pub open spec fn recv_model<T>(q: Seq<T>) -> (Seq<T>, Result<T, Error<T>>) {
    if q.len() > 0 {
        (q.drop_first(), Ok(q[0]))
    } else {
        (q, Err(Error::Empty))
    }
}

/// The queue after sending each of `items` in turn.
pub open spec fn send_all<T>(q: Seq<T>, capacity: nat, items: Seq<T>) -> Seq<T>
    decreases items.len(),
{
    if items.len() == 0 {
        q
    } else {
        send_all(send_model(q, capacity, items[0]).0, capacity, items.drop_first())
    }
}

/// The items that `n` receives in turn hand out, starting from `q`.
pub open spec fn receive_n<T>(q: Seq<T>, n: nat) -> Seq<T>
    decreases n,
{
    if n == 0 {
        Seq::empty()
    } else {
        let (rest, answer) = recv_model(q);
        match answer {
            Ok(x) => seq![x] + receive_n(rest, (n - 1) as nat),
            Err(_) => receive_n(rest, (n - 1) as nat),
        }
    }
}

/// A send never takes the queue past the channel's capacity.
pub proof fn law_send_keeps_bound<T>(q: Seq<T>, capacity: nat, item: T)
    requires
        q.len() <= capacity,
    ensures
        send_model(q, capacity, item).0.len() <= capacity,
{
}

/// A send to a full channel changes nothing and hands the item back.
pub proof fn law_full_send_returns_item<T>(q: Seq<T>, capacity: nat, item: T)
    requires
        q.len() >= capacity,
    ensures
        send_model(q, capacity, item).0 == q,
        send_model(q, capacity, item).1 == Err::<(), Error<T>>(Error::Full(item)),
{
}

/// A channel made with no room refuses every send.
pub proof fn law_zero_capacity_refuses<T>(q: Seq<T>, item: T)
    ensures
        send_model(q, 0, item).1 == Err::<(), Error<T>>(Error::Full(item)),
{
}

/// A receive from an empty channel changes nothing and answers `Empty`.
pub proof fn law_empty_recv<T>(q: Seq<T>)
    requires
        q.len() == 0,
    ensures
        recv_model(q).0 == q,
        recv_model(q).1 == Err::<T, Error<T>>(Error::Empty),
{
}

/// What is sent to an empty channel with room is what the next receive
/// gives back, and the channel is empty again afterwards.
pub proof fn law_round_trip<T>(capacity: nat, item: T)
    requires
        capacity > 0,
    ensures
        recv_model(send_model(Seq::<T>::empty(), capacity, item).0).1 == Ok::<T, Error<T>>(item),
        recv_model(send_model(Seq::<T>::empty(), capacity, item).0).0 == Seq::<T>::empty(),
{
    let q = send_model(Seq::<T>::empty(), capacity, item).0;
    assert(q =~= seq![item]);
    assert(recv_model(q).0 =~= Seq::<T>::empty());
}

/// A send does not change which item the next receive gives out of a
/// channel that already holds one.
pub proof fn law_send_keeps_front<T>(q: Seq<T>, capacity: nat, item: T)
    requires
        q.len() > 0,
    ensures
        recv_model(send_model(q, capacity, item).0).1 == recv_model(q).1,
{
}

/// Sends that fit in the channel append their items in order.
pub proof fn law_send_all_appends<T>(q: Seq<T>, capacity: nat, items: Seq<T>)
    requires
        q.len() + items.len() <= capacity,
    ensures
        send_all(q, capacity, items) == q + items,
    decreases items.len(),
{
    if items.len() > 0 {
        let q1 = send_model(q, capacity, items[0]).0;
        assert(q1 == q.push(items[0]));
        law_send_all_appends(q1, capacity, items.drop_first());
        assert(q.push(items[0]) + items.drop_first() =~= q + items);
    } else {
        assert(q + items =~= q);
    }
}

/// Receiving as many times as there are items hands them all out, oldest
/// first.
pub proof fn law_receive_all<T>(q: Seq<T>)
    ensures
        receive_n(q, q.len()) == q,
    decreases q.len(),
{
    if q.len() > 0 {
        law_receive_all(q.drop_first());
        assert(seq![q[0]] + q.drop_first() =~= q);
    } else {
        assert(receive_n(q, 0) =~= q);
    }
}

/// First in, first out: items sent to an empty channel, as many as fit,
/// come out of it in the order they went in.
pub proof fn law_fifo<T>(capacity: nat, items: Seq<T>)
    requires
        items.len() <= capacity,
    ensures
        receive_n(send_all(Seq::<T>::empty(), capacity, items), items.len()) == items,
{
    law_send_all_appends(Seq::<T>::empty(), capacity, items);
    assert(Seq::<T>::empty() + items =~= items);
    law_receive_all(items);
}

} // verus!
