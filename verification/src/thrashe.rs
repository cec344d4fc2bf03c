//! The instrumented wrapper: a value holder whose reads are replayed as
//! address touches against a channel. The wrapper stores exactly the wrapped
//! value and nothing else, so its footprint equals the value's footprint;
//! the address a read reports is the wrapper's own storage address, which
//! the unverified rim computes and passes in.

use crate::provider::{spec_channel_touch, Channel};
use vstd::prelude::*;

verus! {

/// Wrapper type that records reads of the held value in a cache simulation.
pub struct Thrashe<T> {
    inner: T,
}

impl<T> Thrashe<T> {
    /// The held value.
    pub closed spec fn spec_inner(&self) -> &T {
        &self.inner
    }

    /// Wraps `value`; no channel interaction.
    pub fn new(value: T) -> (r: Self)
        ensures
            *r.spec_inner() == value,
    {
        Thrashe { inner: value }
    }

    /// A read of the held value: reports one touch of `address` — the
    /// wrapper's storage address — against the channel (a no-op when the
    /// channel is unconfigured), then yields the value unchanged.
    pub fn read(&self, channel: &mut Channel, address: u64) -> (r: &T)
        requires
            old(channel).wf(),
        ensures
            final(channel).wf(),
            final(channel)@ == spec_channel_touch(old(channel)@, address),
            r == self.spec_inner(),
    {
        channel.touch_address(address);
        &self.inner
    }

    /// The cache effect of a prefetch: the same touch as a read of `value`,
    /// without yielding the held value.
    pub fn prefetch(value: &Self, channel: &mut Channel, address: u64)
        requires
            old(channel).wf(),
        ensures
            final(channel).wf(),
            final(channel)@ == spec_channel_touch(old(channel)@, address),
    {
        channel.touch_address(address);
    }
}

} // verus!
