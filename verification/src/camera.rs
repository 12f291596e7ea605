//! The single-frame slot shared by the capture thread and the renderer: the
//! capture side overwrites the latest frame; the renderer takes it at most
//! once.

use vstd::prelude::*;

verus! {

/// The latest decoded RGBA8 frame and whether it is still unconsumed.
pub struct FrameSlot {
    pub data: Vec<u8>,
    pub dirty: bool,
}

impl FrameSlot {
    pub fn new() -> (r: Self)
        ensures
            r.data@.len() == 0,
            !r.dirty,
    {
        FrameSlot { data: Vec::new(), dirty: false }
    }

    /// Capture side: overwrite the latest frame and mark it unconsumed.
    pub fn store(&mut self, frame: &[u8])
        ensures
            final(self).data@ == frame@,
            final(self).dirty,
    {
        self.data.clear();
        let mut i: usize = 0;
        while i < frame.len()
            invariant
                i <= frame@.len(),
                self.data@ == frame@.subrange(0, i as int),
            decreases frame@.len() - i,
        {
            self.data.push(frame[i]);
            i = i + 1;
            assert(self.data@ =~= frame@.subrange(0, i as int));
        }
        assert(frame@.subrange(0, frame@.len() as int) =~= frame@);
        self.dirty = true;
    }

    /// Renderer side: copy the latest frame into `out` if it has not been
    /// consumed yet. Returns whether a frame was copied; a stale slot leaves
    /// `out` untouched.
    pub fn copy_latest(&mut self, out: &mut Vec<u8>) -> (r: bool)
        ensures
            (r, final(self).dirty) == take_step(old(self).dirty),
            r ==> final(out)@ == old(self).data@,
            !r ==> final(out)@ == old(out)@,
            final(self).data@ == old(self).data@,
    {
        if !self.dirty {
            return false;
        }
        out.clear();
        let mut i: usize = 0;
        while i < self.data.len()
            invariant
                i <= self.data@.len(),
                out@ == self.data@.subrange(0, i as int),
            decreases self.data@.len() - i,
        {
            out.push(self.data[i]);
            i = i + 1;
            assert(out@ =~= self.data@.subrange(0, i as int));
        }
        assert(self.data@.subrange(0, self.data@.len() as int) =~= self.data@);
        self.dirty = false;
        true
    }
}

/// One renderer take from a slot holding `dirty`: whether a frame is copied,
/// and the slot's flag afterwards.
pub open spec fn take_step(dirty: bool) -> (bool, bool) {
    (dirty, false)
}

/// A frame is consumed at most once: a second take without a new store
/// copies nothing.
pub proof fn lemma_frame_taken_once(dirty: bool)
    ensures
        !take_step(take_step(dirty).1).0,
{
}

} // verus!
