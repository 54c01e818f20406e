//! The buffer pool: one slot for each buffer that the driver shares with the
//! process, indexed as the driver indexes them.
use vstd::prelude::*;

verus! {

/// One buffer slot: the capacity of its mapped region, and whether the buffer
/// sits in the driver's fill queue (rather than with the caller).
#[derive(Clone, Copy, Debug, PartialEq, Eq, Structural)]
pub struct Slot {
    pub capacity: u32,
    pub queued: bool,
}

/// The slots of the mapped buffers, in the driver's order.
pub struct BufferPool {
    slots: Vec<Slot>,
}

impl View for BufferPool {
    type V = Seq<Slot>;

    closed spec fn view(&self) -> Seq<Slot> {
        self.slots@
    }
}

impl BufferPool {
    /// A pool with no buffers.
    pub fn new() -> (r: BufferPool)
        ensures
            r@ == Seq::<Slot>::empty(),
    {
        BufferPool { slots: Vec::new() }
    }

    /// The number of mapped regions.
    pub fn len(&self) -> (r: usize)
        ensures
            r == self@.len(),
    {
        self.slots.len()
    }

    /// The slot of buffer `index`.
    pub fn slot(&self, index: usize) -> (r: Slot)
        requires
            index < self@.len(),
        ensures
            r == self@[index as int],
    {
        self.slots[index]
    }

    /// Records one more mapped region, of the given capacity, not yet queued.
    pub fn add_region(&mut self, capacity: u32)
        ensures
            final(self)@ == old(self)@.push(Slot { capacity, queued: false }),
    {
        self.slots.push(Slot { capacity, queued: false });
    }

    /// Records whether buffer `index` is in the driver's fill queue.
    pub fn set_queued(&mut self, index: usize, queued: bool)
        requires
            index < old(self)@.len(),
        ensures
            final(self)@ == old(self)@.update(
                index as int,
                Slot { capacity: old(self)@[index as int].capacity, queued },
            ),
    {
        let capacity = self.slots[index].capacity;
        self.slots.set(index, Slot { capacity, queued });
    }

    /// Forgets every region: the pool is empty afterwards, also where it was
    /// empty before.
    pub fn release(&mut self)
        ensures
            final(self)@ == Seq::<Slot>::empty(),
    {
        self.slots.clear();
    }
}

} // verus!
