//! The arena of per-chunk uniform slots: one dynamic-offset slot per
//! uploaded chunk, handed out lowest first and reused last-freed first.

use vstd::prelude::*;

verus! {

/// Bytes of one chunk's uniform data.
pub const CHUNK_UNIFORM_SIZE: u64 = 16;

/// Slots in the uniform arena.
pub const DEFAULT_SLOTS: u32 = 16384;

/// A chunk's slot and the byte offset of its uniform data.
#[derive(Clone, Copy, Debug, PartialEq, Eq, Structural)]
pub struct ChunkSlot {
    pub uniform_offset: u32,
    pub slot: u32,
}

/// Bytes between slots: 256 (the uniform size rounded up to 256), rounded
/// up to the device's uniform offset alignment.
pub open spec fn slot_size_spec(alignment: u32) -> int {
    let a = if alignment == 0 {
        1
    } else {
        alignment as int
    };
    ((256 + a - 1) / a) * a
}

pub fn slot_size(alignment: u32) -> (size: u64)
    ensures
        size == slot_size_spec(alignment),
        size >= 256,
        (size as int) % (if alignment == 0 { 1int } else { alignment as int }) == 0,
{
    let a: u64 = if alignment == 0 {
        1
    } else {
        alignment as u64
    };
    let base: u64 = if CHUNK_UNIFORM_SIZE > 256 {
        CHUNK_UNIFORM_SIZE
    } else {
        256
    };
    proof {
        let ai = a as int;
        assert(((256 + ai - 1) / ai) * ai >= 256 && ((256 + ai - 1) / ai) * ai % ai == 0
            && ((256 + ai - 1) / ai) * ai <= 256 + ai) by (nonlinear_arith)
            requires
                ai >= 1,
        ;
    }
    let blocks = (base + a - 1) / a;
    blocks * a
}

/// Byte offset of slot `slot`, truncated to 32 bits as the bind offset is.
pub open spec fn uniform_offset_spec(slot: u32, size: u64) -> u32 {
    (slot * size) as u32
}

impl ChunkSlot {
    /// The slot `slot` of an arena whose slots are `size` bytes apart.
    pub fn new(slot: u32, size: u64) -> (s: Self)
        requires
            slot * size <= u64::MAX,
        ensures
            s.slot == slot,
            s.uniform_offset == uniform_offset_spec(slot, size),
    {
        ChunkSlot { uniform_offset: (slot as u64 * size) as u32, slot }
    }
}

/// The free slots; the next one handed out is the last.
pub struct SlotArena {
    free: Vec<u32>,
}

impl View for SlotArena {
    type V = Seq<u32>;

    closed spec fn view(&self) -> Seq<u32> {
        self.free@
    }
}

impl SlotArena {
    /// Every slot free, so that slot 0 is handed out first.
    pub fn new() -> (a: Self)
        ensures
            a@.len() == DEFAULT_SLOTS,
            forall|i: int| 0 <= i < DEFAULT_SLOTS ==> #[trigger] a@[i] == DEFAULT_SLOTS - 1 - i,
    {
        let mut free: Vec<u32> = Vec::new();
        let mut next: u32 = DEFAULT_SLOTS;
        while next > 0
            invariant
                next <= DEFAULT_SLOTS,
                free@.len() == DEFAULT_SLOTS - next,
                forall|i: int| 0 <= i < free@.len() ==> #[trigger] free@[i] == DEFAULT_SLOTS - 1 - i,
            decreases next,
        {
            next = next - 1;
            free.push(next);
        }
        SlotArena { free }
    }

    /// Take a free slot: the most recently freed one, or none when the arena is exhausted.
    pub fn reserve(&mut self) -> (slot: Option<u32>)
        ensures
            old(self)@.len() == 0 ==> slot.is_none() && final(self)@ == old(self)@,
            old(self)@.len() > 0 ==> slot == Some(old(self)@.last()) && final(self)@
                == old(self)@.drop_last(),
    {
        self.free.pop()
    }

    /// Give a slot back.
    pub fn release(&mut self, slot: u32)
        ensures
            final(self)@ == old(self)@.push(slot),
    {
        self.free.push(slot);
    }

    pub fn free_count(&self) -> (n: usize)
        ensures
            n == self@.len(),
    {
        self.free.len()
    }
}

/// A released slot is the next one reserved.
pub proof fn lemma_release_then_reserve(free: Seq<u32>, slot: u32)
    ensures
        free.push(slot).len() > 0,
        free.push(slot).last() == slot,
        free.push(slot).drop_last() == free,
{
    assert(free.push(slot).drop_last() =~= free);
}

} // verus!
