//! [`FrameBridge`] — tier subscription and tick-pinned frame reads: repeated
//! reads within a tick return the same frame; the next tick samples the
//! latest.

use crate::runner::host::{FrameRef, FrameTier};
use vstd::prelude::*;

verus! {

/// The abstract state of a frame bridge.
pub struct FrameModel {
    /// The subscribed tier.
    pub tier: FrameTier,
    /// Newest frame the host has published.
    pub latest: Option<FrameRef>,
    /// The frame pinned at tick start.
    pub pinned: Option<FrameRef>,
}

pub struct FrameBridge {
    tier: FrameTier,
    latest: Option<FrameRef>,
    pinned: Option<FrameRef>,
}

impl View for FrameBridge {
    type V = FrameModel;

    closed spec fn view(&self) -> FrameModel {
        FrameModel { tier: self.tier, latest: self.latest, pinned: self.pinned }
    }
}

impl FrameBridge {
    pub fn new() -> (r: Self)
        ensures
            r@ == (FrameModel { tier: FrameTier::R320x180, latest: None, pinned: None }),
    {
        FrameBridge { tier: FrameTier::R320x180, latest: None, pinned: None }
    }

    /// Subscribe to a tier; always granted.
    pub fn request_frame(&mut self, tier: FrameTier) -> (r: bool)
        ensures
            r,
            final(self)@ == (FrameModel { tier, ..old(self)@ }),
    {
        self.tier = tier;
        true
    }

    /// Switch tier without reload; always granted.
    pub fn change_frame_tier(&mut self, tier: FrameTier) -> (r: bool)
        ensures
            r,
            final(self)@ == (FrameModel { tier, ..old(self)@ }),
    {
        self.tier = tier;
        true
    }

    pub fn tier(&self) -> (r: FrameTier)
        ensures r == self@.tier,
    {
        self.tier
    }

    /// Host-side feed: the newest frame for the current tier.
    pub fn push(&mut self, width: u32, height: u32)
        ensures
            final(self)@ == (FrameModel {
                latest: Some(FrameRef { width, height, tier: old(self)@.tier }),
                ..old(self)@
            }),
    {
        self.latest = Some(FrameRef { width, height, tier: self.tier });
    }

    /// Pin the latest frame at tick start.
    pub fn begin_tick(&mut self)
        ensures
            final(self)@ == (FrameModel { pinned: old(self)@.latest, ..old(self)@ }),
    {
        self.pinned = self.latest;
    }

    /// The pinned frame; `None` if none has been published.
    pub fn read_frame(&self) -> (r: Option<FrameRef>)
        ensures r == self@.pinned,
    {
        self.pinned
    }
}

impl Default for FrameBridge {
    fn default() -> (r: Self)
        ensures
            r@ == (FrameModel { tier: FrameTier::R320x180, latest: None, pinned: None }),
    {
        Self::new()
    }
}

/// Host pushes during a tick never change what the tick reads; the next
/// `begin_tick` makes the newest push visible.
pub proof fn lemma_frames_are_tick_pinned(m: FrameModel, width: u32, height: u32)
    ensures
        ({
            let pushed = FrameModel {
                latest: Some(FrameRef { width, height, tier: m.tier }),
                ..m
            };
            &&& pushed.pinned == m.pinned
            &&& (FrameModel { pinned: pushed.latest, ..pushed }).pinned
                == Some(FrameRef { width, height, tier: m.tier })
        }),
{
}

} // verus!
