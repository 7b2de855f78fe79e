//! The desk itself: the negotiated channel layout, the history of shaped
//! samples of each channel, and the order in which a frame passes through
//! the stages of the effect.
//!
//! A frame is shaped, the shaped samples enter the histories, the taps are
//! summed over the histories as they then stand, and the sum is mixed onto
//! the dry samples. The desk fixes that order and which value reaches which
//! stage; what each stage computes is handed in by the caller.

use crate::history::{shifted, History};
use crate::layout::{layout_of, negotiate, ChannelLayout, LayoutError};
use crate::taps::{
    fold_taps, lemma_fold_computes_the_sum, lemma_inert_taps_keep_the_start, polarity_of,
    tap_fold, tap_sum, Polarity,
};
use vstd::prelude::*;

verus! {

/// Number of taps of the desk as it is built by default, and so the depth of
/// each of its histories.
pub const TAP_COUNT: usize = 8;

/// One frame of samples, one sample for each channel of the layout.
#[derive(Debug)]
pub enum Frame<T> {
    Mono(T),
    Stereo(T, T),
}

impl<T> Frame<T> {
    /// The sample that enters the left history.
    pub open spec fn left(self) -> T {
        match self {
            Frame::Mono(x) => x,
            Frame::Stereo(l, _) => l,
        }
    }

    /// The sample that enters the right history: in a mono frame the one
    /// sample there is, which is thus fed through both channels.
    pub open spec fn right(self) -> T {
        match self {
            Frame::Mono(x) => x,
            Frame::Stereo(_, r) => r,
        }
    }
}

/// One channel's way through a frame, for arithmetic given as three kernels.
/// The dry sample is shaped into `shaped`, which is the sample that enters
/// the history. The taps are then summed over `taps`, the history with the
/// shaped sample already in it, and the output is what `mix` makes of that
/// sum and of the dry sample as it came in, not as it was shaped.
pub open spec fn strip_ran<
    T,
    S: Fn(T) -> T,
    W: Fn(T, usize, T, Polarity) -> T,
    M: Fn(T, T) -> T,
>(shape: S, weigh: W, mix: M, start: T, dry: T, shaped: T, taps: Seq<T>, out: T) -> bool {
    &&& call_ensures(shape, (dry,), shaped)
    &&& exists|wet: T|
        tap_fold(weigh, taps, taps.len(), start, wet) && #[trigger] call_ensures(
            mix,
            (dry, wet),
            out,
        )
}

/// What a [`GladeDesk`] holds, as plain mathematical values.
pub struct DeskView<T> {
    /// The layout last negotiated.
    pub layout: ChannelLayout,
    /// Shaped samples of the left channel, newest first.
    pub left: Seq<T>,
    /// Shaped samples of the right channel, newest first.
    pub right: Seq<T>,
}

impl<T> DeskView<T> {
    /// The view of a desk whose histories hold `depth` copies of `fill`.
    pub open spec fn silent(layout: ChannelLayout, depth: nat, fill: T) -> Self {
        DeskView {
            layout,
            left: Seq::new(depth, |i: int| fill),
            right: Seq::new(depth, |i: int| fill),
        }
    }

    /// The view after initialisation for `inputs` input and `outputs` output
    /// channels: where these make a layout, that layout over histories of
    /// the old depth that hold nothing but `fill`; where not, the old view.
    pub open spec fn initialized(self, inputs: u32, outputs: u32, fill: T) -> Self {
        match layout_of(inputs, outputs) {
            Ok(layout) => Self::silent(layout, self.left.len(), fill),
            Err(_) => self,
        }
    }
}

/// A desk's way from `before` to `after` through one frame, for arithmetic
/// given as three kernels. The layout stays and the output frame is of the
/// kind of the dry frame. Each history takes in its channel's shaped sample,
/// and each channel has gone the way that [`strip_ran`] describes over its
/// own history. A mono frame is shaped once: the one shaped sample enters
/// both histories, and the output is that of the left channel.
pub open spec fn frame_ran<
    T,
    S: Fn(T) -> T,
    W: Fn(T, usize, T, Polarity) -> T,
    M: Fn(T, T) -> T,
>(
    shape: S,
    weigh: W,
    mix: M,
    start: T,
    dry: Frame<T>,
    before: DeskView<T>,
    after: DeskView<T>,
    out: Frame<T>,
) -> bool {
    &&& after.layout == before.layout
    &&& match dry {
        Frame::Mono(x) => exists|s: T|
            {
                &&& after.left == shifted(before.left, s)
                &&& after.right == shifted(before.right, s)
                &&& out is Mono
                &&& #[trigger] strip_ran(shape, weigh, mix, start, x, s, after.left, out.left())
            },
        Frame::Stereo(l, r) => exists|sl: T, sr: T|
            {
                &&& after.left == shifted(before.left, sl)
                &&& after.right == shifted(before.right, sr)
                &&& out is Stereo
                &&& #[trigger] strip_ran(shape, weigh, mix, start, l, sl, after.left, out.left())
                &&& #[trigger] strip_ran(shape, weigh, mix, start, r, sr, after.right, out.right())
            },
    }
}

/// The effect's state: a channel layout and two histories of one depth, the
/// left and the right channel's, each read by its own tap bank.
pub struct GladeDesk<T> {
    layout: ChannelLayout,
    left: History<T>,
    right: History<T>,
}

impl<T> View for GladeDesk<T> {
    type V = DeskView<T>;

    closed spec fn view(&self) -> DeskView<T> {
        DeskView { layout: self.layout, left: self.left@, right: self.right@ }
    }
}

impl<T> GladeDesk<T> {
    #[verifier::type_invariant]
    spec fn same_depth(&self) -> bool {
        self.left@.len() == self.right@.len()
    }
}

impl<T: Copy + Default> Default for GladeDesk<T> {
    /// A stereo desk of [`TAP_COUNT`] taps whose histories hold nothing but
    /// the sample type's default value.
    fn default() -> (desk: Self)
        ensures
            exists|fill: T| #[trigger]
                call_ensures(T::default, (), fill) && desk@ == DeskView::silent(
                    ChannelLayout::Stereo,
                    TAP_COUNT as nat,
                    fill,
                ),
    {
        let fill = T::default();
        GladeDesk::new(TAP_COUNT, fill)
    }
}

impl<T: Copy> GladeDesk<T> {
    /// A stereo desk whose histories hold `depth` entries, each equal to
    /// `fill`.
    pub fn new(depth: usize, fill: T) -> (desk: Self)
        ensures
            desk@ == DeskView::silent(ChannelLayout::Stereo, depth as nat, fill),
    {
        GladeDesk {
            layout: ChannelLayout::Stereo,
            left: History::new(depth, fill),
            right: History::new(depth, fill),
        }
    }

    /// Prepares the desk for a host that offers `inputs` input and `outputs`
    /// output channels. Where these make a layout, the desk takes it and both
    /// histories are overwritten with `fill`; where they do not, the desk is
    /// left as it was and the refusal is returned.
    pub fn initialize(
        &mut self,
        inputs: u32,
        outputs: u32,
        fill: T,
    ) -> (r: Result<ChannelLayout, LayoutError>)
        ensures
            r == layout_of(inputs, outputs),
            final(self)@ == old(self)@.initialized(inputs, outputs, fill),
    {
        proof {
            use_type_invariant(&*self);
        }
        match negotiate(inputs, outputs) {
            Ok(layout) => {
                self.layout = layout;
                self.left.reset(fill);
                self.right.reset(fill);
                Ok(layout)
            },
            Err(e) => Err(e),
        }
    }

    /// The layout last negotiated; stereo until then.
    pub fn layout(&self) -> (layout: ChannelLayout)
        ensures
            layout == self@.layout,
        no_unwind
    {
        self.layout
    }

    /// Number of entries held for each channel.
    pub fn depth(&self) -> (n: usize)
        ensures
            n == self@.left.len(),
            n == self@.right.len(),
        no_unwind
    {
        proof {
            use_type_invariant(self);
        }
        self.left.depth()
    }

    /// The left channel's history.
    pub fn left_channel(&self) -> (h: &History<T>)
        ensures
            h@ == self@.left,
        no_unwind
    {
        &self.left
    }

    /// The right channel's history.
    pub fn right_channel(&self) -> (h: &History<T>)
        ensures
            h@ == self@.right,
        no_unwind
    {
        &self.right
    }

    /// Takes in one frame: each channel's history receives its own sample and
    /// drops its oldest entry; neither channel sees the other's sample, and
    /// the layout stays.
    pub fn push(&mut self, frame: Frame<T>)
        ensures
            final(self)@.layout == old(self)@.layout,
            final(self)@.left == shifted(old(self)@.left, frame.left()),
            final(self)@.right == shifted(old(self)@.right, frame.right()),
        no_unwind
    {
        proof {
            use_type_invariant(&*self);
        }
        let (l, r) = match frame {
            Frame::Mono(x) => (x, x),
            Frame::Stereo(l, r) => (l, r),
        };
        self.left.push(l);
        self.right.push(r);
    }

    /// Runs one frame of dry samples through the desk and returns the frame
    /// of outputs, of the same kind. The arithmetic is the caller's: `shape`
    /// is the waveshaper, `weigh` adds one tap to a tap sum that begins at
    /// `start`, and `mix` blends a dry sample with its channel's tap sum.
    ///
    /// The desk goes the way that [`frame_ran`] describes: each channel is
    /// shaped, enters its own history, is summed over that history and is
    /// mixed onto its own dry sample.
    pub fn process<S, W, M>(
        &mut self,
        dry: Frame<T>,
        shape: S,
        start: T,
        weigh: W,
        mix: M,
    ) -> (out: Frame<T>) where
        S: Fn(T) -> T,
        W: Fn(T, usize, T, Polarity) -> T,
        M: Fn(T, T) -> T,

        requires
            call_requires(shape, (dry.left(),)),
            call_requires(shape, (dry.right(),)),
            forall|so_far: T, i: usize, x: T|
                i < old(self)@.left.len() ==> #[trigger] call_requires(
                    weigh,
                    (so_far, i, x, polarity_of(i as nat)),
                ),
            forall|wet: T| #[trigger] call_requires(mix, (dry.left(), wet)),
            forall|wet: T| #[trigger] call_requires(mix, (dry.right(), wet)),
        ensures
            frame_ran(shape, weigh, mix, start, dry, old(self)@, final(self)@, out),
    {
        proof {
            use_type_invariant(&*self);
        }
        match dry {
            Frame::Mono(x) => {
                let s = shape(x);
                self.push(Frame::Mono(s));
                let wet = fold_taps(&self.left, start, &weigh);
                let out = Frame::Mono(mix(x, wet));
                proof {
                    assert(strip_ran(shape, weigh, mix, start, x, s, self@.left, out.left()));
                }
                out
            },
            Frame::Stereo(l, r) => {
                let sl = shape(l);
                let sr = shape(r);
                self.push(Frame::Stereo(sl, sr));
                let wet_l = fold_taps(&self.left, start, &weigh);
                let wet_r = fold_taps(&self.right, start, &weigh);
                let out = Frame::Stereo(mix(l, wet_l), mix(r, wet_r));
                proof {
                    assert(strip_ran(shape, weigh, mix, start, l, sl, self@.left, out.left()));
                    assert(strip_ran(shape, weigh, mix, start, r, sr, self@.right, out.right()));
                }
                out
            },
        }
    }
}

/// The three kernels compute the functions `shape_fn`, `step` and `mix_fn`:
/// whatever a kernel returns is the value of its function at what the kernel
/// was given.
pub open spec fn kernels_compute<
    T,
    S: Fn(T) -> T,
    W: Fn(T, usize, T, Polarity) -> T,
    M: Fn(T, T) -> T,
>(
    shape: S,
    weigh: W,
    mix: M,
    shape_fn: spec_fn(T) -> T,
    step: spec_fn(T, nat, T, Polarity) -> T,
    mix_fn: spec_fn(T, T) -> T,
) -> bool {
    &&& forall|x: T, y: T| #[trigger] call_ensures(shape, (x,), y) ==> y == shape_fn(x)
    &&& forall|so_far: T, i: usize, x: T, p: Polarity, next: T| #[trigger]
        call_ensures(weigh, (so_far, i, x, p), next) ==> next == step(so_far, i as nat, x, p)
    &&& forall|d: T, wet: T, o: T| #[trigger] call_ensures(mix, (d, wet), o) ==> o == mix_fn(d, wet)
}

/// Where the three kernels compute functions, a channel's way through a
/// frame is a function too: the sample that enters the history is
/// `shape_fn` of the dry sample, and the output is `mix_fn` of the dry sample
/// and of the tap sum over the history that already holds the shaped sample.
pub proof fn lemma_strip_computes<
    T,
    S: Fn(T) -> T,
    W: Fn(T, usize, T, Polarity) -> T,
    M: Fn(T, T) -> T,
>(
    shape: S,
    weigh: W,
    mix: M,
    shape_fn: spec_fn(T) -> T,
    step: spec_fn(T, nat, T, Polarity) -> T,
    mix_fn: spec_fn(T, T) -> T,
    start: T,
    dry: T,
    shaped: T,
    taps: Seq<T>,
    out: T,
)
    requires
        taps.len() <= usize::MAX,
        kernels_compute(shape, weigh, mix, shape_fn, step, mix_fn),
        strip_ran(shape, weigh, mix, start, dry, shaped, taps, out),
    ensures
        shaped == shape_fn(dry),
        out == mix_fn(dry, tap_sum(step, taps, taps.len(), start)),
{
    let wet = choose|wet: T|
        tap_fold(weigh, taps, taps.len(), start, wet) && #[trigger] call_ensures(
            mix,
            (dry, wet),
            out,
        );
    lemma_fold_computes_the_sum(weigh, step, taps, taps.len(), start, wet);
}

/// Where `mix` pays no heed to the tap sum, neither does the output: if
/// whatever `mix` returns is `dry_fn` of the dry sample alone, then the
/// channel's output is `dry_fn` of its dry sample, whatever the taps weigh
/// and whatever the history holds.
pub proof fn lemma_mix_can_exclude_the_taps<
    T,
    S: Fn(T) -> T,
    W: Fn(T, usize, T, Polarity) -> T,
    M: Fn(T, T) -> T,
>(
    shape: S,
    weigh: W,
    mix: M,
    dry_fn: spec_fn(T) -> T,
    start: T,
    dry: T,
    shaped: T,
    taps: Seq<T>,
    out: T,
)
    requires
        forall|d: T, wet: T, o: T| #[trigger] call_ensures(mix, (d, wet), o) ==> o == dry_fn(d),
        strip_ran(shape, weigh, mix, start, dry, shaped, taps, out),
    ensures
        out == dry_fn(dry),
{
}

/// Where the taps add nothing, the output is what `mix` makes of the dry
/// sample and of the start of the sum: if at every tap whatever `weigh`
/// returns is the sum it was given, the tap sum that reaches `mix` is
/// `start`, whatever the history holds.
pub proof fn lemma_inert_taps_mix_the_start<
    T,
    S: Fn(T) -> T,
    W: Fn(T, usize, T, Polarity) -> T,
    M: Fn(T, T) -> T,
>(shape: S, weigh: W, mix: M, start: T, dry: T, shaped: T, taps: Seq<T>, out: T)
    requires
        forall|so_far: T, i: usize, x: T, p: Polarity, next: T| #[trigger]
            call_ensures(weigh, (so_far, i, x, p), next) ==> next == so_far,
        strip_ran(shape, weigh, mix, start, dry, shaped, taps, out),
    ensures
        call_ensures(mix, (dry, start), out),
{
    let wet = choose|wet: T|
        tap_fold(weigh, taps, taps.len(), start, wet) && #[trigger] call_ensures(
            mix,
            (dry, wet),
            out,
        );
    lemma_inert_taps_keep_the_start(weigh, taps, taps.len(), start, wet);
}

/// Where the three kernels compute functions, the desk computes a function
/// of the dry frame and of the histories before it: each history takes in
/// `shape_fn` of its channel's dry sample, and each output is `mix_fn` of
/// its channel's dry sample and of the tap sum over its channel's history
/// with the shaped sample in it.
pub proof fn lemma_frame_computes<
    T,
    S: Fn(T) -> T,
    W: Fn(T, usize, T, Polarity) -> T,
    M: Fn(T, T) -> T,
>(
    shape: S,
    weigh: W,
    mix: M,
    shape_fn: spec_fn(T) -> T,
    step: spec_fn(T, nat, T, Polarity) -> T,
    mix_fn: spec_fn(T, T) -> T,
    start: T,
    dry: Frame<T>,
    before: DeskView<T>,
    after: DeskView<T>,
    out: Frame<T>,
)
    requires
        before.left.len() <= usize::MAX,
        before.right.len() <= usize::MAX,
        kernels_compute(shape, weigh, mix, shape_fn, step, mix_fn),
        frame_ran(shape, weigh, mix, start, dry, before, after, out),
    ensures
        after.layout == before.layout,
        after.left == shifted(before.left, shape_fn(dry.left())),
        after.right == shifted(before.right, shape_fn(dry.right())),
        out is Mono <==> dry is Mono,
        out.left() == mix_fn(dry.left(), tap_sum(step, after.left, after.left.len(), start)),
        dry is Stereo ==> out.right() == mix_fn(
            dry.right(),
            tap_sum(step, after.right, after.right.len(), start),
        ),
{
    match dry {
        Frame::Mono(x) => {
            let s = choose|s: T|
                {
                    &&& after.left == shifted(before.left, s)
                    &&& after.right == shifted(before.right, s)
                    &&& out is Mono
                    &&& #[trigger] strip_ran(
                        shape,
                        weigh,
                        mix,
                        start,
                        x,
                        s,
                        after.left,
                        out.left(),
                    )
                };
            lemma_strip_computes(
                shape,
                weigh,
                mix,
                shape_fn,
                step,
                mix_fn,
                start,
                x,
                s,
                after.left,
                out.left(),
            );
        },
        Frame::Stereo(l, r) => {
            let (sl, sr) = choose|sl: T, sr: T|
                {
                    &&& after.left == shifted(before.left, sl)
                    &&& after.right == shifted(before.right, sr)
                    &&& out is Stereo
                    &&& #[trigger] strip_ran(
                        shape,
                        weigh,
                        mix,
                        start,
                        l,
                        sl,
                        after.left,
                        out.left(),
                    )
                    &&& #[trigger] strip_ran(
                        shape,
                        weigh,
                        mix,
                        start,
                        r,
                        sr,
                        after.right,
                        out.right(),
                    )
                };
            lemma_strip_computes(
                shape,
                weigh,
                mix,
                shape_fn,
                step,
                mix_fn,
                start,
                l,
                sl,
                after.left,
                out.left(),
            );
            lemma_strip_computes(
                shape,
                weigh,
                mix,
                shape_fn,
                step,
                mix_fn,
                start,
                r,
                sr,
                after.right,
                out.right(),
            );
        },
    }
}

} // verus!
