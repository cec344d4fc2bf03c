//! A channel: one registry slot holding either nothing or one live cache
//! state, with the configure / report / finish lifecycle. Every channel is
//! an independent value; a registry with several named channels is modelled
//! by `spec_registry_touch`.

use crate::cache::{spec_init, spec_report, spec_touch, CacheModel, CacheState, ThrasheReport};
use crate::geometry::CacheSpec;
use vstd::prelude::*;

verus! {

/// One logical cache channel: unconfigured, or holding a live cache state.
pub struct Channel {
    state: Option<CacheState>,
}

impl View for Channel {
    type V = Option<CacheModel>;

    closed spec fn view(&self) -> Option<CacheModel> {
        match self.state {
            Some(s) => Some(s@),
            None => None,
        }
    }
}

/// A touch against a channel: a no-op when the channel is unconfigured,
/// otherwise one touch of the live state.
pub open spec fn spec_channel_touch(m: Option<CacheModel>, address: u64) -> Option<CacheModel> {
    match m {
        Some(c) => Some(spec_touch(c, address)),
        None => None,
    }
}

/// The report a channel yields: nothing when unconfigured.
pub open spec fn spec_channel_report(m: Option<CacheModel>) -> Option<ThrasheReport> {
    match m {
        Some(c) => Some(spec_report(c)),
        None => None,
    }
}

impl Channel {
    /// The live state, if any, matches its geometry.
    pub open spec fn wf(&self) -> bool {
        match self@ {
            Some(c) => c.wf(),
            None => true,
        }
    }

    /// A fresh, unconfigured channel.
    pub fn new() -> (r: Channel)
        ensures
            r@ is None,
            r.wf(),
    {
        Channel { state: None }
    }

    /// Whether the channel currently holds a live state.
    pub fn is_configured(&self) -> (r: bool)
        ensures
            r == (self@ is Some),
    {
        match &self.state {
            Some(_) => true,
            None => false,
        }
    }

    /// Installs a brand-new cache built from `geometry`, replacing any
    /// previous state, and returns the report of the previous state if one
    /// existed. The new state has all counters zero.
    pub fn configure(&mut self, geometry: CacheSpec) -> (r: Option<ThrasheReport>)
        requires
            geometry.wf(),
        ensures
            final(self)@ == Some(spec_init(geometry)),
            final(self).wf(),
            r == spec_channel_report(old(self)@),
    {
        let r = match &self.state {
            Some(s) => Some(s.make_report()),
            None => None,
        };
        self.state = Some(CacheState::from_spec(geometry));
        r
    }

    /// A snapshot report of the current state, or nothing when the channel
    /// is unconfigured; the channel itself is untouched.
    pub fn get_report(&self) -> (r: Option<ThrasheReport>)
        ensures
            r == spec_channel_report(self@),
    {
        match &self.state {
            Some(s) => Some(s.make_report()),
            None => None,
        }
    }

    /// Removes the current state, leaving the channel unconfigured, and
    /// returns its final report, or nothing if the channel already was
    /// unconfigured.
    pub fn finish(&mut self) -> (r: Option<ThrasheReport>)
        ensures
            final(self)@ is None,
            final(self).wf(),
            r == spec_channel_report(old(self)@),
    {
        let prev = self.state.take();
        match prev {
            Some(s) => Some(s.make_report()),
            None => None,
        }
    }

    /// Replays one address against the channel's live state; a no-op when
    /// the channel is unconfigured.
    pub fn touch_address(&mut self, address: u64)
        requires
            old(self).wf(),
        ensures
            final(self).wf(),
            final(self)@ == spec_channel_touch(old(self)@, address),
    {
        let prev = self.state.take();
        match prev {
            Some(mut s) => {
                s.touch_address(address);
                self.state = Some(s);
            },
            None => {},
        }
    }
}

/// A registry of independent channels, one per identifier, on which a touch
/// against one channel acts.
pub open spec fn spec_registry_touch(
    channels: Map<int, Option<CacheModel>>,
    which: int,
    address: u64,
) -> Map<int, Option<CacheModel>> {
    channels.insert(which, spec_channel_touch(channels[which], address))
}

/// Single-channel isolation: a touch against one channel of a registry
/// leaves every other channel exactly as it was — in particular its
/// counters.
pub proof fn lemma_channel_isolation(
    channels: Map<int, Option<CacheModel>>,
    which: int,
    other: int,
    address: u64,
)
    requires
        channels.dom().contains(other),
        other != which,
    ensures
        spec_registry_touch(channels, which, address)[other] == channels[other],
        spec_channel_report(spec_registry_touch(channels, which, address)[other])
            == spec_channel_report(channels[other]),
{
}

} // verus!
