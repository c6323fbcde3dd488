use vstd::prelude::*;

verus! {

/// What a channel operation can fail with.
///
/// Variants that carry a `T` hand the rejected item back to the caller.
#[derive(Debug)]
pub enum Error<T> {
    /// The slot at the receive position was taken by a competing receiver.
    RecvError,
    /// The slot at the send position was taken by a competing sender.
    SendError(T),
    /// The channel can carry no further items.
    Closed,
    /// The channel already holds as many items as its capacity.
    Full(T),
    /// The channel holds no item.
    Empty,
}

} // verus!
