//! The partition function that keeps wide rows of the store bounded.
use vstd::prelude::*;

verus! {

/// How rows keyed by a parent, an index or an address are spread over
/// partitions: milestones are taken in chunks, and the chunks go round the
/// partitions.
#[derive(Clone, Copy, Debug, PartialEq, Eq, Structural)]
pub struct PartitionConfig {
    pub partition_count: u16,
    pub milestone_chunk_size: u32,
}

impl PartitionConfig {
    /// There is at least one partition, and a chunk holds at least one
    /// milestone.
    pub open spec fn wf(&self) -> bool {
        self.partition_count > 0 && self.milestone_chunk_size > 0
    }

    /// The partition of a milestone: the number of its chunk, modulo the
    /// number of partitions.
    pub open spec fn spec_partition_id(&self, milestone_index: u32) -> u16 {
        ((milestone_index / self.milestone_chunk_size) % (self.partition_count as u32)) as u16
    }

    /// A configuration, if both numbers are positive.
    pub fn new(partition_count: u16, milestone_chunk_size: u32) -> (r: Option<PartitionConfig>)
        ensures
            r.is_some() <==> partition_count > 0 && milestone_chunk_size > 0,
            r matches Some(c) ==> c.wf() && c.partition_count == partition_count
                && c.milestone_chunk_size == milestone_chunk_size,
    {
        if partition_count > 0 && milestone_chunk_size > 0 {
            Some(PartitionConfig { partition_count, milestone_chunk_size })
        } else {
            None
        }
    }

    /// The partition of a milestone; it lies below the number of partitions.
    #[verifier::when_used_as_spec(spec_partition_id)]
    pub fn partition_id(&self, milestone_index: u32) -> (id: u16)
        requires
            self.wf(),
        ensures
            id == self.spec_partition_id(milestone_index),
            id < self.partition_count,
    {
        let chunk = milestone_index / self.milestone_chunk_size;
        let count = self.partition_count as u32;
        (chunk % count) as u16
    }
}

impl Default for PartitionConfig {
    /// A thousand partitions and chunks of 60480 milestones.
    fn default() -> (c: PartitionConfig)
        ensures
            c.wf(),
            c.partition_count == 1000,
            c.milestone_chunk_size == 60480,
    {
        PartitionConfig { partition_count: 1000, milestone_chunk_size: 60480 }
    }
}

} // verus!
