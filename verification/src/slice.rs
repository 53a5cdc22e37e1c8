//! Offset/length descriptors into a backing sequence.

use vstd::prelude::*;

verus! {

/// The place of some data in a backing buffer: a contiguous run of `size`
/// entries starting at entry `offset`. A zero-size slice is the neutral
/// value for [`BufferSlice::append`]; its offset carries no meaning.
#[derive(Clone, Copy, PartialEq, Eq, Structural, Debug)]
pub struct BufferSlice {
    pub offset: u32,
    pub size: u32,
}

impl BufferSlice {
    /// The slice describes no entries at all.
    pub open spec fn is_empty(self) -> bool {
        self.size == 0
    }

    /// The end of the slice stays within the index space of a backing buffer.
    pub open spec fn wf(self) -> bool {
        self.offset + self.size <= u32::MAX
    }

    /// `other` starts exactly where `self` ends, so the two can merge into
    /// one contiguous slice; an empty `self` extends to anything.
    pub open spec fn extends(self, other: BufferSlice) -> bool {
        self.is_empty() || self.offset + self.size == other.offset
    }

    /// The contiguous union of two adjacent slices.
    pub open spec fn joined(self, other: BufferSlice) -> BufferSlice {
        if self.is_empty() {
            other
        } else {
            BufferSlice { offset: self.offset, size: (self.size + other.size) as u32 }
        }
    }

    /// The empty slice.
    pub fn new() -> (r: BufferSlice)
        ensures
            r == (BufferSlice { offset: 0u32, size: 0u32 }),
    {
        BufferSlice { offset: 0, size: 0 }
    }

    /// Merge an adjacent slice into this one, so that the result covers the
    /// whole region. Asking to merge a non-adjacent slice is a contract
    /// breach by the caller, not a runtime condition: it would mean two
    /// recorders interleaved writes in storage they believed they owned.
    pub fn append(&mut self, other: BufferSlice)
        requires
            old(self).wf(),
            other.wf(),
            old(self).extends(other),
        ensures
            *final(self) == old(self).joined(other),
    {
        if self.size == 0 {
            self.offset = other.offset;
            self.size = other.size;
        } else {
            self.size = self.size + other.size;
        }
    }
}

/// Law: merging adjacent slices is associative, and the merge of a chain of
/// adjacent slices covers exactly the in-order concatenation of its parts:
/// it starts where the first non-empty part starts and its size is the sum
/// of the parts' sizes.
pub proof fn lemma_append_associative(a: BufferSlice, b: BufferSlice, c: BufferSlice)
    requires
        a.wf(),
        b.wf(),
        c.wf(),
        a.extends(b),
        a.joined(b).extends(c),
    ensures
        b.extends(c),
        a.extends(b.joined(c)),
        a.joined(b).joined(c) == a.joined(b.joined(c)),
        a.joined(b).joined(c).size == a.size + b.size + c.size,
{
}

} // verus!
