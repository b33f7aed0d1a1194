//! Growth and reuse policy of the device buffers that hold an encoded tree.
//!
//! The library keeps, for each object, the capacity of its record buffer on
//! the device (in nodes) and the node count last written. Each upload says
//! whether the record buffer is written in place or allocated anew: an
//! allocation that can hold the new records is reused, a smaller one is
//! replaced by one sized exactly for them. The header buffer holding the node
//! count has a fixed size and is always written in place.
use vstd::prelude::*;
use crate::binarize::{CsgError, MAX_NODES};
use crate::csg::{Object, binarized, opt_size};
use crate::encode::{encode_object, encoding_of, header_bytes, word_bytes, ByteOrder, EncodedCsg};

verus! {

/// What happens to the record buffer on the device.
#[derive(Clone, Copy, Debug, PartialEq, Eq, Structural)]
pub enum BufferAction {
    /// Create a record buffer sized exactly for the new records, releasing
    /// the old one if there is one.
    Allocate,
    /// Write the new records at the start of the existing record buffer.
    WriteInPlace,
}

/// The action for writing `node_count` nodes into a record buffer that can
/// hold `capacity` nodes.
pub open spec fn spec_plan_update(capacity: nat, node_count: nat) -> BufferAction {
    if capacity >= node_count {
        BufferAction::WriteInPlace
    } else {
        BufferAction::Allocate
    }
}

/// Capacity of the record buffer after writing `node_count` nodes into one
/// that could hold `capacity`.
pub open spec fn capacity_after(capacity: nat, node_count: nat) -> nat {
    if capacity >= node_count {
        capacity
    } else {
        node_count
    }
}

/// Decides between writing in place and allocating anew.
pub fn plan_update(capacity: usize, node_count: u32) -> (r: BufferAction)
    ensures
        r == spec_plan_update(capacity as nat, node_count as nat),
{
    if capacity as u64 >= node_count as u64 {
        BufferAction::WriteInPlace
    } else {
        BufferAction::Allocate
    }
}

/// What the device has to do for one object: the action on the record
/// buffer, the records, and the four bytes of the header buffer.
pub struct GpuUpload {
    pub action: BufferAction,
    pub records: Vec<u8>,
    pub header: [u8; 4],
}

/// Device-side state of one object's buffers: how many nodes the record
/// buffer can hold (zero before the first allocation) and how many it holds.
#[derive(Clone, Copy, Debug, PartialEq, Eq, Structural)]
pub struct CsgBuffer {
    buffer_size: usize,
    node_count: u32,
}

impl CsgBuffer {
    pub closed spec fn spec_capacity(self) -> nat {
        self.buffer_size as nat
    }

    pub closed spec fn spec_node_count(self) -> nat {
        self.node_count as nat
    }

    /// The state after writing `node_count` nodes.
    pub closed spec fn after_write(self, node_count: nat) -> CsgBuffer {
        CsgBuffer {
            buffer_size: capacity_after(self.buffer_size as nat, node_count) as usize,
            node_count: node_count as u32,
        }
    }

    pub proof fn lemma_after_write(self, node_count: nat)
        requires
            node_count <= MAX_NODES,
        ensures
            self.after_write(node_count).spec_capacity() == capacity_after(
                self.spec_capacity(),
                node_count,
            ),
            self.after_write(node_count).spec_node_count() == node_count,
    {
    }

    /// The state before the first allocation.
    pub closed spec fn spec_unallocated() -> CsgBuffer {
        CsgBuffer { buffer_size: 0, node_count: 0 }
    }

    /// No record buffer allocated yet.
    pub fn unallocated() -> (r: CsgBuffer)
        ensures
            r == CsgBuffer::spec_unallocated(),
            r.spec_capacity() == 0,
            r.spec_node_count() == 0,
    {
        CsgBuffer { buffer_size: 0, node_count: 0 }
    }

    /// Number of nodes the record buffer can hold.
    pub fn capacity(&self) -> (r: usize)
        ensures
            r == self.spec_capacity(),
    {
        self.buffer_size
    }

    /// Number of nodes last written.
    pub fn node_count(&self) -> (r: u32)
        ensures
            r == self.spec_node_count(),
    {
        self.node_count
    }

    /// Plans the write of an encoded tree and records its effect.
    pub fn write_encoded(&mut self, encoded: EncodedCsg, order: ByteOrder) -> (r: GpuUpload)
        ensures
            r.action == spec_plan_update(old(self).spec_capacity(), encoded.node_count as nat),
            r.records@ == encoded.records@,
            r.header@ == word_bytes(encoded.node_count, order),
            *final(self) == old(self).after_write(encoded.node_count as nat),
    {
        let action = plan_update(self.buffer_size, encoded.node_count);
        if let BufferAction::Allocate = action {
            self.buffer_size = encoded.node_count as usize;
        }
        self.node_count = encoded.node_count;
        GpuUpload { action, records: encoded.records, header: header_bytes(encoded.node_count, order) }
    }

    /// Buffers for a new object: both are allocated with the object's
    /// encoding, the record buffer sized exactly for it.
    pub fn new(csg: &Object, order: ByteOrder) -> (r: Result<(CsgBuffer, GpuUpload), CsgError>)
        ensures
            match r {
                Ok((b, u)) => {
                    let (records, count) = encoding_of(binarized(*csg), order);
                    &&& opt_size(binarized(*csg)) <= MAX_NODES
                    &&& u.action == BufferAction::Allocate
                    &&& u.records@ == records
                    &&& u.header@ == word_bytes(count as u32, order)
                    &&& b.spec_capacity() == count
                    &&& b.spec_node_count() == count
                },
                Err(e) => e == CsgError::TooManyNodes && opt_size(binarized(*csg)) > MAX_NODES,
            },
    {
        match encode_object(csg, order) {
            Err(e) => Err(e),
            Ok(encoded) => {
                proof {
                    crate::encode::lemma_encoding_size(binarized(*csg), order);
                }
                let mut b = CsgBuffer::unallocated();
                let u = b.write_encoded(encoded, order);
                Ok((b, u))
            },
        }
    }

    /// Re-encodes `csg` into these buffers: in place when the record buffer
    /// can hold the new records, into a new record buffer otherwise.
    pub fn update_csg(&mut self, csg: &Object, order: ByteOrder) -> (r: Result<
        GpuUpload,
        CsgError,
    >)
        ensures
            match r {
                Ok(u) => {
                    let (records, count) = encoding_of(binarized(*csg), order);
                    &&& opt_size(binarized(*csg)) <= MAX_NODES
                    &&& u.action == spec_plan_update(old(self).spec_capacity(), count)
                    &&& u.records@ == records
                    &&& u.header@ == word_bytes(count as u32, order)
                    &&& final(self).spec_capacity() == capacity_after(
                        old(self).spec_capacity(),
                        count,
                    )
                    &&& final(self).spec_node_count() == count
                },
                Err(e) => {
                    &&& e == CsgError::TooManyNodes
                    &&& opt_size(binarized(*csg)) > MAX_NODES
                    &&& *final(self) == *old(self)
                },
            },
    {
        match encode_object(csg, order) {
            Err(e) => Err(e),
            Ok(encoded) => {
                proof {
                    crate::encode::lemma_encoding_size(binarized(*csg), order);
                }
                Ok(self.write_encoded(encoded, order))
            },
        }
    }
}

/// A record buffer is reallocated exactly when it cannot hold the new
/// records; after any write it holds them, and a shrinking write keeps the
/// allocation it had.
pub proof fn lemma_capacity_policy(capacity: nat, node_count: nat)
    ensures
        (spec_plan_update(capacity, node_count) == BufferAction::Allocate) == (capacity
            < node_count),
        capacity_after(capacity, node_count) >= node_count,
        capacity_after(capacity, node_count) >= capacity,
        spec_plan_update(capacity, node_count) == BufferAction::WriteInPlace ==> capacity_after(
            capacity,
            node_count,
        ) == capacity,
{
}

} // verus!
