//! The behavior ↔ engine execution contract. A behavior is anything that
//! implements [`BehaviorNode`]: at start it sees the signal schema and its
//! configuration; each tick it sees the frame it reads (a borrowed RGBA8
//! buffer with its dimensions), its configuration and the tick timing, and
//! stages the signals it publishes. It reaches nothing else.

use crate::addon::schema::ParamMap;
use crate::signal::{SignalId, SignalSchema, SignalValue};
use vstd::prelude::*;

verus! {

/// Per-tick timing in seconds: the frame delta and the elapsed time since
/// start, each carried as the bit pattern of its `f32` value.
#[derive(Clone, Copy, Debug, PartialEq, Eq, Structural)]
pub struct Timing {
    pub dt_bits: u32,
    pub elapsed_bits: u32,
}

#[derive(Clone, Copy)]
pub struct FrameView<'a> {
    width: u32,
    height: u32,
    rgba: &'a [u8],
}

impl<'a> FrameView<'a> {
    pub fn new(width: u32, height: u32, rgba: &'a [u8]) -> (r: Self)
        ensures
            r.spec_width() == width,
            r.spec_height() == height,
            r.spec_rgba() == rgba@,
    {
        FrameView { width, height, rgba }
    }

    pub closed spec fn spec_width(&self) -> u32 {
        self.width
    }

    pub closed spec fn spec_height(&self) -> u32 {
        self.height
    }

    pub closed spec fn spec_rgba(&self) -> Seq<u8> {
        self.rgba@
    }

    pub fn width(&self) -> (r: u32)
        ensures r == self.spec_width(),
    {
        self.width
    }

    pub fn height(&self) -> (r: u32)
        ensures r == self.spec_height(),
    {
        self.height
    }

    pub fn rgba(&self) -> (r: &[u8])
        ensures r@ == self.spec_rgba(),
    {
        self.rgba
    }
}

/// Context at start: the signal schema (resolve published names to ids once
/// here) and the configuration values. No frame, no publishing.
pub struct BehaviorStartCtx<'a> {
    schema: &'a SignalSchema,
    config: &'a ParamMap,
}

impl<'a> BehaviorStartCtx<'a> {
    pub fn new(schema: &'a SignalSchema, config: &'a ParamMap) -> (r: Self)
        ensures
            r.spec_schema() == *schema,
            r.spec_config() == *config,
    {
        BehaviorStartCtx { schema, config }
    }

    pub closed spec fn spec_schema(&self) -> SignalSchema {
        *self.schema
    }

    pub closed spec fn spec_config(&self) -> ParamMap {
        *self.config
    }

    /// The signal schema.
    pub fn schema(&self) -> (r: &SignalSchema)
        ensures
            *r == self.spec_schema(),
    {
        self.schema
    }

    /// The configuration values.
    pub fn config(&self) -> (r: &ParamMap)
        ensures
            *r == self.spec_config(),
    {
        self.config
    }
}

/// Per-tick context: the latest frame (if any), the configuration and the
/// timing to read, and the signals staged so far this tick.
pub struct BehaviorCtx<'a> {
    frame: Option<FrameView<'a>>,
    config: &'a ParamMap,
    timing: Timing,
    staged: Vec<(SignalId, SignalValue)>,
}

impl<'a> BehaviorCtx<'a> {
    pub fn new(frame: Option<FrameView<'a>>, config: &'a ParamMap, timing: Timing) -> (r: Self)
        ensures
            r.spec_frame() == frame,
            r.spec_config() == *config,
            r.spec_timing() == timing,
            r.spec_staged().len() == 0,
    {
        BehaviorCtx { frame, config, timing, staged: Vec::new() }
    }

    pub closed spec fn spec_frame(&self) -> Option<FrameView<'a>> {
        self.frame
    }

    pub closed spec fn spec_config(&self) -> ParamMap {
        *self.config
    }

    pub closed spec fn spec_timing(&self) -> Timing {
        self.timing
    }

    /// The signals staged this tick, in staging order.
    pub closed spec fn spec_staged(&self) -> Seq<(SignalId, SignalValue)> {
        self.staged@
    }

    /// The latest source frame, if one has been captured.
    pub fn frame(&self) -> (r: Option<&FrameView<'a>>)
        ensures
            match self.spec_frame() {
                Some(f) => r matches Some(g) && *g == f,
                None => r is None,
            },
    {
        match &self.frame {
            Some(f) => Some(f),
            None => None,
        }
    }

    /// Stage a signal for this tick; the whole tick's signals are committed
    /// together afterwards.
    pub fn publish(&mut self, id: SignalId, value: SignalValue)
        ensures
            final(self).spec_staged() == old(self).spec_staged().push((id, value)),
            final(self).spec_frame() == old(self).spec_frame(),
            final(self).spec_config() == old(self).spec_config(),
            final(self).spec_timing() == old(self).spec_timing(),
    {
        self.staged.push((id, value));
    }

    pub fn config(&self) -> (r: &ParamMap)
        ensures
            *r == self.spec_config(),
    {
        self.config
    }

    pub fn timing(&self) -> (r: Timing)
        ensures
            r == self.spec_timing(),
    {
        self.timing
    }

    /// End the tick: the staged signals, in staging order.
    pub fn into_staged(self) -> (r: Vec<(SignalId, SignalValue)>)
        ensures
            r@ == self.spec_staged(),
    {
        self.staged
    }
}

/// A live behavior. What it does is its own: the trait promises nothing of
/// its steps. `start` resolves published names and loads resources,
/// `update` reads the frame and stages signals, `stop` releases.
pub trait BehaviorNode: Send {
    fn start(&mut self, ctx: &mut BehaviorStartCtx);

    fn update(&mut self, ctx: &mut BehaviorCtx);

    fn stop(&mut self);
}

} // verus!
