//! Channel layouts the effect accepts from its host.

use vstd::prelude::*;

verus! {

/// A layout the effect can run in: as many outputs as inputs, one or two.
#[derive(Clone, Copy, Debug, PartialEq, Eq, Structural)]
pub enum ChannelLayout {
    Mono,
    Stereo,
}

/// Why a pair of channel counts was turned down.
#[derive(Clone, Copy, Debug, PartialEq, Eq, Structural)]
pub enum LayoutError {
    /// The host offers a different number of outputs than inputs.
    Mismatched,
    /// Inputs and outputs agree, but on a count other than one or two.
    Unsupported,
}

impl ChannelLayout {
    /// Number of channels on either side of the effect.
    pub open spec fn channel_count(self) -> nat {
        match self {
            ChannelLayout::Mono => 1,
            ChannelLayout::Stereo => 2,
        }
    }

    /// Number of channels on either side of the effect.
    pub fn channels(self) -> (n: u32)
        ensures
            n == self.channel_count(),
    {
        match self {
            ChannelLayout::Mono => 1,
            ChannelLayout::Stereo => 2,
        }
    }
}

/// The layout for `inputs` input and `outputs` output channels, or the
/// reason there is none.
pub open spec fn layout_of(inputs: u32, outputs: u32) -> Result<ChannelLayout, LayoutError> {
    if inputs != outputs {
        Err(LayoutError::Mismatched)
    } else if inputs == 1 {
        Ok(ChannelLayout::Mono)
    } else if inputs == 2 {
        Ok(ChannelLayout::Stereo)
    } else {
        Err(LayoutError::Unsupported)
    }
}

/// Settles the layout at initialisation, so that nothing has to be turned
/// down once samples flow.
pub fn negotiate(inputs: u32, outputs: u32) -> (r: Result<ChannelLayout, LayoutError>)
    ensures
        r == layout_of(inputs, outputs),
{
    if inputs != outputs {
        Err(LayoutError::Mismatched)
    } else if inputs == 1 {
        Ok(ChannelLayout::Mono)
    } else if inputs == 2 {
        Ok(ChannelLayout::Stereo)
    } else {
        Err(LayoutError::Unsupported)
    }
}

/// A layout is granted exactly when both counts equal its channel count, and
/// each refusal has its own cause: unequal counts are mismatched, equal
/// counts other than one and two are unsupported.
pub proof fn lemma_layout_granted_iff_counts_agree(inputs: u32, outputs: u32)
    ensures
        forall|l: ChannelLayout|
            layout_of(inputs, outputs) == Ok::<ChannelLayout, LayoutError>(l) <==> (inputs
                == l.channel_count() && outputs == l.channel_count()),
        layout_of(inputs, outputs) == Err::<ChannelLayout, LayoutError>(LayoutError::Mismatched)
            <==> inputs != outputs,
        layout_of(inputs, outputs) == Err::<ChannelLayout, LayoutError>(LayoutError::Unsupported)
            <==> (inputs == outputs && inputs != 1 && inputs != 2),
{
}

} // verus!
