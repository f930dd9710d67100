//! The bank of per-channel processing states kept by the DSP engine.
//!
//! Every audio channel owns one state value (the delay lines of its filters).
//! The bank is resized when the host announces its channel layout and is
//! brought back to the fresh state on every reset. Channels never share state:
//! touching one channel leaves every other channel as it was.

use vstd::prelude::*;

verus! {

/// The states of all prepared channels, channel `i` at index `i`.
pub struct ChannelBank<S> {
    states: Vec<S>,
}

/// `s` after resizing it to `n` entries: entries below `n` that already
/// existed are kept, entries that are added hold `fresh`.
pub open spec fn resized<S>(s: Seq<S>, n: nat, fresh: S) -> Seq<S> {
    Seq::new(n, |i: int| if i < s.len() { s[i] } else { fresh })
}

/// `n` channels, each one in the state `fresh`.
pub open spec fn all_fresh<S>(n: nat, fresh: S) -> Seq<S> {
    Seq::new(n, |i: int| fresh)
}

impl<S> View for ChannelBank<S> {
    type V = Seq<S>;

    closed spec fn view(&self) -> Seq<S> {
        self.states@
    }
}

impl<S: Copy> ChannelBank<S> {
    /// A bank with no channel prepared yet.
    pub fn new() -> (bank: Self)
        ensures
            bank@ == Seq::<S>::empty(),
    {
        ChannelBank { states: Vec::new() }
    }

    /// Number of prepared channels.
    pub fn channel_count(&self) -> (n: usize)
        ensures
            n == self@.len(),
    {
        self.states.len()
    }

    /// Prepares exactly `channels` channels: existing channels below
    /// `channels` keep their state, channels beyond the old count start in
    /// `fresh`, channels at or above `channels` are dropped.
    pub fn resize(&mut self, channels: usize, fresh: S)
        ensures
            final(self)@ == resized(old(self)@, channels as nat, fresh),
    {
        if channels <= self.states.len() {
            self.states.truncate(channels);
            assert(self.states@ =~= resized(old(self)@, channels as nat, fresh));
        } else {
            while self.states.len() < channels
                invariant
                    old(self)@.len() <= self.states@.len() <= channels,
                    self.states@ =~= resized(old(self)@, self.states@.len(), fresh),
                decreases channels - self.states@.len(),
            {
                self.states.push(fresh);
                assert(self.states@ =~= resized(old(self)@, self.states@.len(), fresh));
            }
        }
    }

    /// Puts every prepared channel back into the state `fresh`; the number of
    /// channels does not change.
    pub fn reset(&mut self, fresh: S)
        ensures
            final(self)@ == all_fresh(old(self)@.len(), fresh),
    {
        let n = self.states.len();
        let mut i: usize = 0;
        while i < n
            invariant
                n == old(self)@.len(),
                self.states@.len() == n,
                i <= n,
                forall|j: int| 0 <= j < i ==> self.states@[j] == fresh,
            decreases n - i,
        {
            self.states.set(i, fresh);
            i = i + 1;
        }
        assert(self.states@ =~= all_fresh(n as nat, fresh));
    }

    /// The state of channel `channel`.
    pub fn state(&self, channel: usize) -> (s: S)
        requires
            channel < self@.len(),
        ensures
            s == self@[channel as int],
    {
        self.states[channel]
    }

    /// Mutable access to the state of channel `channel`; whatever is written
    /// through the returned reference lands in that channel and nowhere else.
    pub fn state_mut(&mut self, channel: usize) -> (s: &mut S)
        requires
            channel < old(self)@.len(),
        ensures
            *s == old(self)@[channel as int],
            final(self)@ == old(self)@.update(channel as int, *final(s)),
    {
        &mut self.states[channel]
    }
}

} // verus!
