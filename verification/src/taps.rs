//! The taps that read a channel history: their polarity, and the walk that
//! sums them.
//!
//! Tap `i` reads the history entry `i` places back from the newest. The two
//! most recent entries are added to the sum; further back the taps alternate,
//! every even one being subtracted. A bank of two taps is therefore all
//! positive, and a bank of eight reads `+ + - + - + - +`.
//!
//! The walk visits every tap once, from the newest entry to the oldest, and
//! leaves the arithmetic of a tap to the caller.

use crate::history::History;
use vstd::prelude::*;

verus! {

/// Sign with which a tap's term enters the sum.
#[derive(Clone, Copy, Debug, PartialEq, Eq, Structural)]
pub enum Polarity {
    Positive,
    Negative,
}

/// Polarity of the tap at `index`: negative at the even indices from 2 on,
/// positive at index 0 and at every odd index.
pub open spec fn polarity_of(index: nat) -> Polarity {
    if index >= 2 && index % 2 == 0 {
        Polarity::Negative
    } else {
        Polarity::Positive
    }
}

/// What the signs of the first `depth` taps add up to, a positive tap
/// counting `+1` and a negative one `-1`.
pub open spec fn net_polarity(depth: nat) -> int
    decreases depth,
{
    if depth == 0 {
        0
    } else {
        net_polarity((depth - 1) as nat) + match polarity_of((depth - 1) as nat) {
            Polarity::Positive => 1int,
            Polarity::Negative => -1int,
        }
    }
}

/// Polarity of the tap at `index`.
pub fn tap_polarity(index: usize) -> (p: Polarity)
    ensures
        p == polarity_of(index as nat),
{
    if index >= 2 && index % 2 == 0 {
        Polarity::Negative
    } else {
        Polarity::Positive
    }
}

/// `sum` is what walking the first `n` taps of the history `h` can give when
/// the walk starts from `start` and hands each tap to `weigh`: tap 0 first,
/// each tap once, each with the index, the entry and the polarity that are
/// its own, and each with the sum that the taps before it have left.
pub open spec fn tap_fold<T, A, F: Fn(A, usize, T, Polarity) -> A>(
    weigh: F,
    h: Seq<T>,
    n: nat,
    start: A,
    sum: A,
) -> bool
    decreases n,
{
    if n == 0 {
        sum == start
    } else {
        let last = (n - 1) as nat;
        exists|before: A|
            tap_fold(weigh, h, last, start, before) && #[trigger] call_ensures(
                weigh,
                (before, last as usize, h[last as int], polarity_of(last)),
                sum,
            )
    }
}

/// The tap sum in closed form, for arithmetic given as the function `step`
/// from the sum so far and a tap's index, entry and polarity to the next sum:
/// `step` applied along the first `n` taps of `h`, tap 0 first, from `start`.
pub open spec fn tap_sum<T, A>(
    step: spec_fn(A, nat, T, Polarity) -> A,
    h: Seq<T>,
    n: nat,
    start: A,
) -> A
    decreases n,
{
    if n == 0 {
        start
    } else {
        let last = (n - 1) as nat;
        step(tap_sum(step, h, last, start), last, h[last as int], polarity_of(last))
    }
}

/// One more tap extends a walk: where `before` is a sum of the first `k`
/// taps and `weigh` can turn it into `sum` at tap `k`, `sum` is a sum of the
/// first `k + 1` taps.
pub proof fn lemma_tap_fold_extends<T, A, F: Fn(A, usize, T, Polarity) -> A>(
    weigh: F,
    h: Seq<T>,
    k: nat,
    start: A,
    before: A,
    sum: A,
)
    requires
        k < h.len(),
        k <= usize::MAX,
        tap_fold(weigh, h, k, start, before),
        call_ensures(weigh, (before, k as usize, h[k as int], polarity_of(k)), sum),
    ensures
        tap_fold(weigh, h, (k + 1) as nat, start, sum),
{
}

/// Sums the taps of `history`. The arithmetic is the caller's: `weigh` takes
/// the sum so far and one tap's index, entry and polarity, and returns the
/// sum with that tap in it.
pub fn fold_taps<T: Copy, A, F: Fn(A, usize, T, Polarity) -> A>(
    history: &History<T>,
    start: A,
    weigh: &F,
) -> (sum: A)
    requires
        forall|so_far: A, i: usize|
            i < history@.len() ==> #[trigger] call_requires(
                *weigh,
                (so_far, i, history@[i as int], polarity_of(i as nat)),
            ),
    ensures
        tap_fold(*weigh, history@, history@.len(), start, sum),
{
    let n = history.depth();
    let mut sum = start;
    let mut i: usize = 0;
    while i < n
        invariant
            i <= n,
            n == history@.len(),
            tap_fold(*weigh, history@, i as nat, start, sum),
            forall|so_far: A, k: usize|
                k < history@.len() ==> #[trigger] call_requires(
                    *weigh,
                    (so_far, k, history@[k as int], polarity_of(k as nat)),
                ),
        decreases n - i,
    {
        let x = history.get(i).unwrap();
        let polarity = tap_polarity(i);
        let ghost before = sum;
        sum = weigh(sum, i, x, polarity);
        proof {
            lemma_tap_fold_extends(*weigh, history@, i as nat, start, before, sum);
        }
        i = i + 1;
    }
    sum
}

/// Where `weigh` computes a function, the walk computes the sum: if whatever
/// `weigh` returns at a tap is `step` of what it was given, then whatever the
/// walk over the first `n` taps returns is `tap_sum` of `step`. The walk adds
/// no freedom of its own.
pub proof fn lemma_fold_computes_the_sum<T, A, F: Fn(A, usize, T, Polarity) -> A>(
    weigh: F,
    step: spec_fn(A, nat, T, Polarity) -> A,
    h: Seq<T>,
    n: nat,
    start: A,
    sum: A,
)
    requires
        forall|so_far: A, i: nat, out: A|
            i < n && #[trigger] call_ensures(
                weigh,
                (so_far, i as usize, h[i as int], polarity_of(i)),
                out,
            ) ==> out == step(so_far, i, h[i as int], polarity_of(i)),
        tap_fold(weigh, h, n, start, sum),
    ensures
        sum == tap_sum(step, h, n, start),
    decreases n,
{
    if n > 0 {
        let last = (n - 1) as nat;
        let before = choose|before: A|
            tap_fold(weigh, h, last, start, before) && #[trigger] call_ensures(
                weigh,
                (before, last as usize, h[last as int], polarity_of(last)),
                sum,
            );
        lemma_fold_computes_the_sum(weigh, step, h, last, start, before);
    }
}

/// Taps that add nothing leave the sum where it started: if at each of the
/// first `n` taps whatever `weigh` returns is the sum it was given, then the
/// walk returns `start`, whatever the history holds.
pub proof fn lemma_inert_taps_keep_the_start<T, A, F: Fn(A, usize, T, Polarity) -> A>(
    weigh: F,
    h: Seq<T>,
    n: nat,
    start: A,
    sum: A,
)
    requires
        forall|so_far: A, i: nat, out: A|
            i < n && #[trigger] call_ensures(
                weigh,
                (so_far, i as usize, h[i as int], polarity_of(i)),
                out,
            ) ==> out == so_far,
        tap_fold(weigh, h, n, start, sum),
    ensures
        sum == start,
    decreases n,
{
    if n > 0 {
        let last = (n - 1) as nat;
        let before = choose|before: A|
            tap_fold(weigh, h, last, start, before) && #[trigger] call_ensures(
                weigh,
                (before, last as usize, h[last as int], polarity_of(last)),
                sum,
            );
        lemma_inert_taps_keep_the_start(weigh, h, last, start, before);
    }
}

/// In a bank of two taps no tap is subtracted.
pub proof fn lemma_two_taps_are_positive()
    ensures
        forall|i: nat| i < 2 ==> #[trigger] polarity_of(i) == Polarity::Positive,
{
}

/// In a bank of eight taps exactly the taps 2, 4 and 6 are subtracted.
pub proof fn lemma_eight_taps_alternate()
    ensures
        forall|i: nat|
            i < 8 ==> (#[trigger] polarity_of(i) == Polarity::Negative <==> (i == 2 || i == 4 || i
                == 6)),
{
}

/// From the third tap on the signs cancel in pairs, so whatever the depth the
/// bank as a whole weighs as much as its first two taps: two taps' worth for
/// an even depth, one for an odd depth, nothing for an empty bank.
pub proof fn lemma_net_polarity(depth: nat)
    ensures
        net_polarity(depth) == (if depth == 0 {
            0int
        } else if depth % 2 == 0 {
            2int
        } else {
            1int
        }),
    decreases depth,
{
    if depth > 0 {
        lemma_net_polarity((depth - 1) as nat);
    }
}

} // verus!
