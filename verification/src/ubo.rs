//! Offset layout of a uniform-buffer group: one 64-byte matrix slot per
//! object, each slot aligned to the device's minimum buffer-offset
//! alignment so that every slot can be bound on its own.

use vstd::prelude::*;

verus! {

/// Bytes one 4x4 single-precision matrix occupies.
pub const MATRIX_BYTES: u64 = 64;

/// The slot stride chosen for a uniform-buffer group: the device's minimum
/// offset alignment, but never less than one matrix.
pub open spec fn chosen_alignment(min_offset_alignment: u64) -> int {
    if min_offset_alignment > MATRIX_BYTES {
        min_offset_alignment as int
    } else {
        MATRIX_BYTES as int
    }
}

/// Slot layout of a uniform-buffer group.
pub struct UboLayout {
    /// Byte stride between consecutive slots.
    pub alignment: u64,
}

impl UboLayout {
    /// Picks the slot stride for a device with the given minimum
    /// buffer-offset alignment.
    pub fn new(min_offset_alignment: u64) -> (l: UboLayout)
        ensures
            l.alignment == chosen_alignment(min_offset_alignment),
            l.alignment >= MATRIX_BYTES,
    {
        let alignment = if min_offset_alignment > MATRIX_BYTES {
            min_offset_alignment
        } else {
            MATRIX_BYTES
        };
        UboLayout { alignment }
    }

    /// Byte offset of slot `i`, where one matrix is written and bound.
    pub fn offset(&self, i: u64) -> (o: u64)
        requires
            i * self.alignment <= u64::MAX,
        ensures
            o == i * self.alignment,
    {
        i * self.alignment
    }

    /// Total byte size of a buffer holding one slot per object.
    pub fn total_size(&self, object_count: u64) -> (s: u64)
        requires
            object_count * self.alignment <= u64::MAX,
        ensures
            s == object_count * self.alignment,
    {
        object_count * self.alignment
    }
}

} // verus!
