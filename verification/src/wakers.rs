use vstd::prelude::*;

verus! {

/// Something that can be woken when a channel changes state.
pub trait WakeSignal: Send + Sync {
    /// Whether a wake-up of this signal is delivered.
    spec fn delivers(&self) -> bool;

    /// Wakes up the signal; `true` tells that the wake-up was delivered.
    fn wake(&self) -> (r: bool)
        ensures
            r == self.delivers(),
    ;
}

impl WakeSignal for Box<dyn WakeSignal> {
    open spec fn delivers(&self) -> bool {
        (**self).delivers()
    }

    fn wake(&self) -> (r: bool) {
        (**self).wake()
    }
}

/// The signals that one wake-up round over `s` hands to `wake`, in order:
/// each in turn, up to and including the first whose wake-up is delivered.
pub open spec fn wake_round<W: WakeSignal>(s: Seq<W>) -> Seq<W>
    decreases s.len(),
{
    if s.len() == 0 {
        s
    } else if s[0].delivers() {
        seq![s[0]]
    } else {
        seq![s[0]] + wake_round(s.drop_first())
    }
}

/// The wake-up round over `s` is the signals before position `k`, none of
/// which delivers, followed by the one at `k` when that one delivers.
proof fn lemma_wake_round<W: WakeSignal>(s: Seq<W>, k: int)
    requires
        0 <= k <= s.len(),
        forall|i: int| 0 <= i < k ==> !(#[trigger] s[i]).delivers(),
        k < s.len() ==> s[k].delivers(),
    ensures
        wake_round(s) == if k < s.len() { s.take(k + 1) } else { s },
    decreases k,
{
    if s.len() == 0 {
    } else if k == 0 {
        assert(seq![s[0]] =~= s.take(1));
    } else {
        let t = s.drop_first();
        assert forall|i: int| 0 <= i < k - 1 implies !(#[trigger] t[i]).delivers() by {
            assert(t[i] == s[i + 1]);
        }
        assert(!s[0].delivers());
        lemma_wake_round(t, k - 1);
        if k < s.len() {
            assert(seq![s[0]] + t.take(k) =~= s.take(k + 1));
        } else {
            assert(seq![s[0]] + t =~= s);
        }
    }
}

/// A wake-up round starts with the first waiting signal, and hands out
/// signals in the order they registered: it is a prefix of the list.
pub proof fn law_wake_round_is_prefix<W: WakeSignal>(s: Seq<W>)
    ensures
        wake_round(s).len() <= s.len(),
        wake_round(s) == s.take(wake_round(s).len() as int),
        s.len() > 0 ==> wake_round(s).len() > 0 && wake_round(s)[0] == s[0],
    decreases s.len(),
{
    if s.len() > 0 && !s[0].delivers() {
        let t = s.drop_first();
        law_wake_round_is_prefix(t);
        assert(seq![s[0]] + t.take(wake_round(t).len() as int) =~= s.take(
            wake_round(s).len() as int,
        ));
    } else if s.len() > 0 {
        assert(seq![s[0]] =~= s.take(1));
    } else {
        assert(s =~= s.take(0));
    }
}

/// Waking stops at the first delivered wake-up: when the first waiting
/// signal delivers, it is the only one woken.
pub proof fn law_first_delivery_stops<W: WakeSignal>(s: Seq<W>)
    requires
        s.len() > 0,
        s[0].delivers(),
    ensures
        wake_round(s) == seq![s[0]],
{
}

/// A round in which no wake-up is delivered hands every signal to `wake`.
pub proof fn law_undelivered_round_wakes_all<W: WakeSignal>(s: Seq<W>)
    requires
        forall|i: int| 0 <= i < s.len() ==> !(#[trigger] s[i]).delivers(),
    ensures
        wake_round(s) == s,
{
    lemma_wake_round(s, s.len() as int);
}

/// The parties waiting for a channel to change state, in the order in which
/// they registered, and the signals that the latest wake-up round woke.
pub struct Wakers<W> {
    pub wakers: Vec<W>,
    last_round: Ghost<Seq<W>>,
}

impl<W> View for Wakers<W> {
    type V = Seq<W>;

    closed spec fn view(&self) -> Seq<W> {
        self.wakers@
    }
}

impl<W> Wakers<W> {
    /// The signals that the latest wake-up round handed to `wake`, in order.
    pub closed spec fn last_woken(&self) -> Seq<W> {
        self.last_round@
    }
}

impl<W: WakeSignal> Wakers<W> {
    /// Creates an empty list.
    pub fn new() -> (r: Self)
        ensures
            r@ == Seq::<W>::empty(),
            r.last_woken() == Seq::<W>::empty(),
    {
        Wakers { wakers: Vec::new(), last_round: Ghost(Seq::empty()) }
    }

    /// Appends `waker` to the list.
    pub fn register(&mut self, waker: W)
        ensures
            final(self)@ == old(self)@.push(waker),
            final(self).last_woken() == old(self).last_woken(),
    {
        self.wakers.push(waker);
    }

    /// Takes every registered waker out of the list and wakes them in order
    /// until one reports a delivered wake-up; the ones after it are dropped
    /// without being woken.
    ///
    /// Returns the position of the waker whose wake-up was delivered, or the
    /// length of the list when none was.
    pub fn wake_one(&mut self) -> (k: usize)
        ensures
            final(self)@ == Seq::<W>::empty(),
            k <= old(self)@.len(),
            forall|i: int| 0 <= i < k ==> !(#[trigger] old(self)@[i]).delivers(),
            k < old(self)@.len() ==> old(self)@[k as int].delivers(),
            final(self).last_woken() == wake_round(old(self)@),
    {
        let mut pending: Vec<W> = Vec::new();
        std::mem::swap(&mut pending, &mut self.wakers);
        let ghost list = pending@;
        let mut i: usize = 0;
        while i < pending.len()
            invariant
                i <= pending.len(),
                pending@ == list,
                list == old(self)@,
                self@ == Seq::<W>::empty(),
                forall|j: int| 0 <= j < i ==> !(#[trigger] list[j]).delivers(),
            decreases pending.len() - i,
        {
            if pending[i].wake() {
                proof {
                    lemma_wake_round(list, i as int);
                }
                self.last_round = Ghost(list.take(i + 1));
                return i;
            }
            i = i + 1;
        }
        proof {
            lemma_wake_round(list, i as int);
        }
        self.last_round = Ghost(list);
        i
    }
}

} // verus!
