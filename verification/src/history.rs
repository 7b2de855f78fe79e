//! Fixed-depth history of the most recent samples of one channel.

use vstd::prelude::*;

verus! {

/// Contents of a history after one more sample `x` has arrived: `x` stands at
/// index 0, every earlier entry has moved one place back, and the entry that
/// was oldest is gone. The depth does not change.
pub open spec fn shifted<T>(s: Seq<T>, x: T) -> Seq<T> {
    Seq::new(s.len(), |i: int| if i == 0 { x } else { s[i - 1] })
}

/// Contents after the samples of `xs` have arrived one by one, `xs[0]` first.
pub open spec fn shifted_all<T>(s: Seq<T>, xs: Seq<T>) -> Seq<T>
    decreases xs.len(),
{
    if xs.len() == 0 {
        s
    } else {
        shifted(shifted_all(s, xs.drop_last()), xs.last())
    }
}

/// Position in the backing store of the entry with logical index `i`, for a
/// store of `len` slots whose newest entry is in slot `head`.
spec fn slot_of(head: int, len: int, i: int) -> int {
    if head + i < len {
        head + i
    } else {
        head + i - len
    }
}

/// The `N` most recent samples of one channel, newest first.
///
/// The samples live in a fixed store that is written in place: a push
/// overwrites the oldest entry and moves the cursor, so no sample is ever
/// copied from slot to slot and nothing is allocated after construction.
pub struct History<T> {
    slots: Vec<T>,
    head: usize,
}

impl<T> View for History<T> {
    type V = Seq<T>;

    /// The entries in logical order: index 0 is the newest, the last index
    /// the oldest.
    closed spec fn view(&self) -> Seq<T> {
        Seq::new(
            self.slots@.len(),
            |i: int| self.slots@[slot_of(self.head as int, self.slots@.len() as int, i)],
        )
    }
}

impl<T> History<T> {
    #[verifier::type_invariant]
    spec fn cursor_in_store(&self) -> bool {
        self.head < self.slots@.len() || (self.slots@.len() == 0 && self.head == 0)
    }
}

impl<T: Copy> History<T> {
    /// A history of `depth` entries, each equal to `fill`.
    pub fn new(depth: usize, fill: T) -> (h: Self)
        ensures
            h@ == Seq::new(depth as nat, |i: int| fill),
    {
        let mut slots: Vec<T> = Vec::new();
        let mut k: usize = 0;
        while k < depth
            invariant
                k <= depth,
                slots@.len() == k,
                forall|j: int| 0 <= j < k ==> slots@[j] == fill,
            decreases depth - k,
        {
            slots.push(fill);
            k = k + 1;
        }
        let h = History { slots, head: 0 };
        assert(h@ =~= Seq::new(depth as nat, |i: int| fill));
        h
    }

    /// Number of entries held, which never changes after construction.
    pub fn depth(&self) -> (n: usize)
        ensures
            n == self@.len(),
        no_unwind
    {
        self.slots.len()
    }

    /// The entry `i` places back from the newest, or `None` past the oldest.
    pub fn get(&self, i: usize) -> (r: Option<T>)
        ensures
            r == (if i < self@.len() {
                Some(self@[i as int])
            } else {
                None
            }),
        no_unwind
    {
        proof {
            use_type_invariant(self);
        }
        let n = self.slots.len();
        if i >= n {
            return None;
        }
        let room = n - self.head;
        let k = if i < room { self.head + i } else { i - room };
        Some(self.slots[k])
    }

    /// Takes in the sample `x` as the newest entry and drops the oldest.
    pub fn push(&mut self, x: T)
        ensures
            final(self)@ == shifted(old(self)@, x),
        no_unwind
    {
        proof {
            use_type_invariant(&*self);
        }
        let n = self.slots.len();
        if n == 0 {
            assert(self@ =~= shifted(self@, x));
            return;
        }
        let head = if self.head == 0 { n - 1 } else { self.head - 1 };
        self.head = head;
        self.slots[head] = x;
        assert(self@ =~= shifted(old(self)@, x));
    }

    /// Overwrites every entry with `fill`, as after a change of sample rate.
    pub fn reset(&mut self, fill: T)
        ensures
            final(self)@ == Seq::new(old(self)@.len(), |i: int| fill),
        no_unwind
    {
        proof {
            use_type_invariant(&*self);
        }
        let n = self.slots.len();
        let mut k: usize = 0;
        while k < n
            invariant
                k <= n,
                n == self.slots@.len(),
                self.head == old(self).head,
                n > 0 ==> self.head < n,
                forall|j: int| 0 <= j < k ==> self.slots@[j] == fill,
            decreases n - k,
        {
            self.slots[k] = fill;
            k = k + 1;
        }
        assert(self@ =~= Seq::new(old(self)@.len(), |i: int| fill));
    }
}

/// One push keeps the depth, puts the new sample first and drops exactly the
/// oldest entry: what remains behind the new sample is the old history
/// without its last entry, in the old order.
pub proof fn lemma_push_evicts_oldest<T>(s: Seq<T>, x: T)
    requires
        s.len() > 0,
    ensures
        shifted(s, x) == seq![x] + s.drop_last(),
{
    assert(shifted(s, x) =~= seq![x] + s.drop_last());
}

/// After any run of pushes the depth is unchanged; the entry `i` places back
/// is the sample pushed `i` pushes before the last one, and where fewer than
/// `i + 1` samples were pushed it is the entry that stood `xs.len()` places
/// nearer the front before the run.
pub proof fn lemma_pushes_in_closed_form<T>(s: Seq<T>, xs: Seq<T>)
    ensures
        shifted_all(s, xs).len() == s.len(),
        forall|i: int|
            0 <= i < s.len() ==> #[trigger] shifted_all(s, xs)[i] == (if i < xs.len() {
                xs[xs.len() - 1 - i]
            } else {
                s[i - xs.len()]
            }),
    decreases xs.len(),
{
    if xs.len() > 0 {
        let before = xs.drop_last();
        lemma_pushes_in_closed_form(s, before);
        assert forall|i: int| 0 <= i < s.len() implies #[trigger] shifted_all(s, xs)[i] == (if i
            < xs.len() {
            xs[xs.len() - 1 - i]
        } else {
            s[i - xs.len()]
        }) by {
            if i > 0 {
                assert(shifted_all(s, xs)[i] == shifted_all(s, before)[i - 1]);
            }
        }
    }
}

/// Once at least as many samples have been pushed as the history is deep, it
/// holds the most recent of them and nothing else, newest first: the tail of
/// the pushed run, reversed. Whatever the history held before has been
/// evicted, and so has every sample pushed earlier than that tail.
pub proof fn lemma_full_history_is_reversed_tail<T>(s: Seq<T>, xs: Seq<T>)
    requires
        xs.len() >= s.len(),
    ensures
        shifted_all(s, xs) == xs.subrange(xs.len() - s.len(), xs.len() as int).reverse(),
{
    lemma_pushes_in_closed_form(s, xs);
    let tail = xs.subrange(xs.len() - s.len(), xs.len() as int);
    assert(shifted_all(s, xs) =~= tail.reverse());
}

} // verus!
