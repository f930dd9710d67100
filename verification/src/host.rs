//! Decisions the plugin takes when the host sets it up and when it hands over a
//! block of audio.

use vstd::prelude::*;

use crate::channel_bank::{all_fresh, resized};

verus! {

/// The number of channel states to prepare for an output layout whose main
/// output has `main_output_channels` channels (`None` when the layout has no
/// main output).
pub fn output_channel_count(main_output_channels: Option<u32>) -> (n: usize)
    ensures
        n == match main_output_channels {
            Some(c) => c as nat,
            None => 0nat,
        },
{
    match main_output_channels {
        Some(c) => c as usize,
        None => 0,
    }
}

/// What the audio callback does with a block handed over by the host.
#[derive(Clone, Copy, Debug, PartialEq, Eq)]
pub enum BlockDecision {
    /// The bypass parameter is on: the block passes through untouched.
    Bypassed,
    /// The block holds no sample or no channel: there is nothing to do.
    Empty,
    /// The block has more channels than states were prepared for: it passes
    /// through untouched rather than reading a state that does not exist.
    TooManyChannels,
    /// Every sample of every channel of the block goes through the engine.
    Process,
}

/// The decision for a block with `block_channels` channels, given whether the
/// bypass parameter is on, whether the host reports the block as empty, and
/// how many channel states are prepared. The checks are taken in this order.
pub open spec fn block_decision_spec(
    bypass: bool,
    block_is_empty: bool,
    block_channels: nat,
    prepared_channels: nat,
) -> BlockDecision {
    if bypass {
        BlockDecision::Bypassed
    } else if block_is_empty || block_channels == 0 {
        BlockDecision::Empty
    } else if block_channels > prepared_channels {
        BlockDecision::TooManyChannels
    } else {
        BlockDecision::Process
    }
}

/// Decides what to do with a block (see `block_decision_spec`).
pub fn decide_block(
    bypass: bool,
    block_is_empty: bool,
    block_channels: usize,
    prepared_channels: usize,
) -> (d: BlockDecision)
    ensures
        d == block_decision_spec(
            bypass,
            block_is_empty,
            block_channels as nat,
            prepared_channels as nat,
        ),
{
    if bypass {
        BlockDecision::Bypassed
    } else if block_is_empty || block_channels == 0 {
        BlockDecision::Empty
    } else if block_channels > prepared_channels {
        BlockDecision::TooManyChannels
    } else {
        BlockDecision::Process
    }
}

/// A block is processed only when bypass is off, and then every channel index
/// of the block addresses a prepared channel state, so the engine never looks
/// up a channel it was not prepared for.
pub proof fn lemma_processed_channels_are_prepared(
    bypass: bool,
    block_is_empty: bool,
    block_channels: nat,
    prepared_channels: nat,
)
    ensures
        block_decision_spec(bypass, block_is_empty, block_channels, prepared_channels)
            == BlockDecision::Process ==> {
            &&& !bypass
            &&& !block_is_empty
            &&& 0 < block_channels
            &&& block_channels <= prepared_channels
        },
        bypass ==> block_decision_spec(bypass, block_is_empty, block_channels, prepared_channels)
            == BlockDecision::Bypassed,
{
}

/// Each decision is taken exactly on the blocks it names: bypass alone gives
/// `Bypassed`; with bypass off, an empty block or one without channels gives
/// `Empty`; with bypass off and a non-empty block, more channels than prepared
/// gives `TooManyChannels`; and every other block (bypass off, not empty, at
/// least one channel, no more channels than prepared) is processed.
pub proof fn lemma_block_decisions_are_exact(
    bypass: bool,
    block_is_empty: bool,
    block_channels: nat,
    prepared_channels: nat,
)
    ensures
        ({
            let d = block_decision_spec(bypass, block_is_empty, block_channels, prepared_channels);
            &&& (d == BlockDecision::Bypassed) <==> bypass
            &&& (d == BlockDecision::Empty) <==> (!bypass && (block_is_empty || block_channels
                == 0))
            &&& (d == BlockDecision::TooManyChannels) <==> (!bypass && !block_is_empty && 0
                < block_channels && prepared_channels < block_channels)
            &&& (d == BlockDecision::Process) <==> (!bypass && !block_is_empty && 0
                < block_channels && block_channels <= prepared_channels)
        }),
{
}

/// Preparing the engine for a layout (resizing the bank to the layout's
/// channel count, then resetting it) leaves exactly that many channels, each
/// one fresh, whatever the bank held before.
pub proof fn lemma_prepare_gives_fresh_channels<S>(
    before: Seq<S>,
    main_output_channels: Option<u32>,
    fresh: S,
)
    ensures
        ({
            let n: nat = match main_output_channels {
                Some(c) => c as nat,
                None => 0nat,
            };
            let after = all_fresh(resized(before, n, fresh).len(), fresh);
            &&& after.len() == n
            &&& forall|i: int| 0 <= i < n ==> after[i] == fresh
        }),
{
}

/// Resetting twice is the same as resetting once, and a reset never changes
/// the number of prepared channels.
pub proof fn lemma_reset_is_idempotent<S>(s: Seq<S>, fresh: S)
    ensures
        all_fresh(all_fresh(s.len(), fresh).len(), fresh) == all_fresh(s.len(), fresh),
        all_fresh(s.len(), fresh).len() == s.len(),
{
    assert(all_fresh(all_fresh(s.len(), fresh).len(), fresh) =~= all_fresh(s.len(), fresh));
}

} // verus!
