//! The shared segment as one value: the control block and the two message
//! rings.  A server endpoint and a client endpoint both operate on the same
//! segment; the caller who maps the real memory hands each operation a
//! mutable view of it.

use vstd::prelude::*;

use crate::layout::ControlBlock;
use crate::ring::RingBuffer;

verus! {

/// Everything that lives in the mapped shared segment, in one value:
/// control block, ring A and ring B.  The server transmits on ring A and
/// receives on ring B; the client mirrors that.
pub struct SharedView {
    pub control: ControlBlock,
    pub ring_a: RingBuffer,
    pub ring_b: RingBuffer,
}

impl SharedView {
    /// Both rings are well formed.
    pub open spec fn wf(self) -> bool {
        &&& self.ring_a.wf()
        &&& self.ring_b.wf()
    }

    /// A fresh segment as the server creates it: stamped control block with
    /// generation one, both rings reset to that generation.
    pub fn new() -> (r: SharedView)
        ensures
            r.wf(),
            r.control.is_reset(),
            r.ring_a.spec_header().is_reset(1),
            r.ring_b.spec_header().is_reset(1),
            r.ring_a@.len() == 0,
            r.ring_b@.len() == 0,
    {
        let control = ControlBlock::default();
        let mut ring_a = RingBuffer::new();
        let mut ring_b = RingBuffer::new();
        ring_a.reset(1);
        ring_b.reset(1);
        SharedView { control, ring_a, ring_b }
    }

    /// The control block at the front of the segment.
    pub fn control_block(&self) -> (r: &ControlBlock)
        ensures
            r == &self.control,
    {
        &self.control
    }
}

} // verus!
