//! Descriptor state: the single uniform-buffer layout binding, the
//! generously sized pool, and one descriptor set per frame slot, each bound
//! to that slot's uniform buffer.

use crate::FRAME_COUNT;
use crate::UNIFORM_BUFFER_SIZE;
use crate::memory::HostBuffer;
use vstd::prelude::*;

verus! {

/// Driver code of each descriptor type the pool provides for.
pub const DESCRIPTOR_TYPE_SAMPLER: u32 = 0;

pub const DESCRIPTOR_TYPE_COMBINED_IMAGE_SAMPLER: u32 = 1;

pub const DESCRIPTOR_TYPE_SAMPLED_IMAGE: u32 = 2;

pub const DESCRIPTOR_TYPE_STORAGE_IMAGE: u32 = 3;

pub const DESCRIPTOR_TYPE_UNIFORM_TEXEL_BUFFER: u32 = 4;

pub const DESCRIPTOR_TYPE_STORAGE_TEXEL_BUFFER: u32 = 5;

pub const DESCRIPTOR_TYPE_UNIFORM_BUFFER: u32 = 6;

pub const DESCRIPTOR_TYPE_STORAGE_BUFFER: u32 = 7;

pub const DESCRIPTOR_TYPE_UNIFORM_BUFFER_DYNAMIC: u32 = 8;

pub const DESCRIPTOR_TYPE_STORAGE_BUFFER_DYNAMIC: u32 = 9;

pub const DESCRIPTOR_TYPE_INPUT_ATTACHMENT: u32 = 10;

/// Shader stage bit: visible to the vertex stage.
pub const SHADER_STAGE_VERTEX: u32 = 0x1;

/// Per-type capacity the pool reserves.
pub const POOL_CAPACITY_PER_TYPE: u32 = 1000;

/// One binding of a descriptor-set layout.
#[derive(Clone, Copy, PartialEq, Eq, Structural, Debug)]
pub struct LayoutBinding {
    pub binding: u32,
    pub descriptor_type: u32,
    pub descriptor_count: u32,
    pub stage_flags: u32,
}

/// What the descriptor pool is created with.
#[derive(Clone, Debug)]
pub struct DescriptorPoolPlan {
    /// Capacity per descriptor type, as (type code, count) pairs.
    pub pool_sizes: Vec<(u32, u32)>,
    pub max_sets: u32,
    /// Sets may be freed individually.
    pub allow_free: bool,
}

/// One allocated descriptor set: where its single uniform-buffer descriptor
/// points.
#[derive(Clone, Copy, PartialEq, Eq, Structural, Debug)]
pub struct DescriptorSet {
    pub binding: u32,
    pub descriptor_type: u32,
    /// Index of the frame slot's uniform buffer the set is bound to.
    pub buffer_index: usize,
    pub offset: usize,
    pub range: usize,
}

/// The layout's one binding: a uniform buffer at binding 0 for the vertex
/// stage.
pub fn create_descriptor_layout() -> (b: LayoutBinding)
    ensures
        b == (LayoutBinding {
            binding: 0,
            descriptor_type: DESCRIPTOR_TYPE_UNIFORM_BUFFER,
            descriptor_count: 1,
            stage_flags: SHADER_STAGE_VERTEX,
        }),
{
    LayoutBinding {
        binding: 0,
        descriptor_type: DESCRIPTOR_TYPE_UNIFORM_BUFFER,
        descriptor_count: 1,
        stage_flags: SHADER_STAGE_VERTEX,
    }
}

/// The descriptor type codes the pool reserves capacity for, in order.
pub open spec fn pool_type_codes() -> Seq<u32> {
    seq![
        DESCRIPTOR_TYPE_SAMPLER,
        DESCRIPTOR_TYPE_COMBINED_IMAGE_SAMPLER,
        DESCRIPTOR_TYPE_SAMPLED_IMAGE,
        DESCRIPTOR_TYPE_STORAGE_IMAGE,
        DESCRIPTOR_TYPE_UNIFORM_TEXEL_BUFFER,
        DESCRIPTOR_TYPE_STORAGE_TEXEL_BUFFER,
        DESCRIPTOR_TYPE_UNIFORM_BUFFER,
        DESCRIPTOR_TYPE_STORAGE_BUFFER,
        DESCRIPTOR_TYPE_UNIFORM_BUFFER_DYNAMIC,
        DESCRIPTOR_TYPE_STORAGE_BUFFER_DYNAMIC,
        DESCRIPTOR_TYPE_INPUT_ATTACHMENT,
    ]
}

/// Plans the descriptor pool: a fixed capacity for each of the eleven
/// descriptor types, room for `capacity × types` sets, and individual
/// freeing allowed — sized once so it never needs to grow.
pub fn create_descriptor_pool() -> (p: DescriptorPoolPlan)
    ensures
        p.pool_sizes@.len() == pool_type_codes().len(),
        forall|i: int|
            0 <= i < p.pool_sizes@.len() ==> #[trigger] p.pool_sizes@[i] == (
            pool_type_codes()[i],
            POOL_CAPACITY_PER_TYPE,
            ),
        p.max_sets == POOL_CAPACITY_PER_TYPE * 11,
        p.allow_free,
{
    let mut pool_sizes: Vec<(u32, u32)> = Vec::new();
    pool_sizes.push((DESCRIPTOR_TYPE_SAMPLER, POOL_CAPACITY_PER_TYPE));
    pool_sizes.push((DESCRIPTOR_TYPE_COMBINED_IMAGE_SAMPLER, POOL_CAPACITY_PER_TYPE));
    pool_sizes.push((DESCRIPTOR_TYPE_SAMPLED_IMAGE, POOL_CAPACITY_PER_TYPE));
    pool_sizes.push((DESCRIPTOR_TYPE_STORAGE_IMAGE, POOL_CAPACITY_PER_TYPE));
    pool_sizes.push((DESCRIPTOR_TYPE_UNIFORM_TEXEL_BUFFER, POOL_CAPACITY_PER_TYPE));
    pool_sizes.push((DESCRIPTOR_TYPE_STORAGE_TEXEL_BUFFER, POOL_CAPACITY_PER_TYPE));
    pool_sizes.push((DESCRIPTOR_TYPE_UNIFORM_BUFFER, POOL_CAPACITY_PER_TYPE));
    pool_sizes.push((DESCRIPTOR_TYPE_STORAGE_BUFFER, POOL_CAPACITY_PER_TYPE));
    pool_sizes.push((DESCRIPTOR_TYPE_UNIFORM_BUFFER_DYNAMIC, POOL_CAPACITY_PER_TYPE));
    pool_sizes.push((DESCRIPTOR_TYPE_STORAGE_BUFFER_DYNAMIC, POOL_CAPACITY_PER_TYPE));
    pool_sizes.push((DESCRIPTOR_TYPE_INPUT_ATTACHMENT, POOL_CAPACITY_PER_TYPE));
    DescriptorPoolPlan { pool_sizes, max_sets: POOL_CAPACITY_PER_TYPE * 11, allow_free: true }
}

/// Allocates one descriptor set per frame slot, each written immediately to
/// point at that slot's whole uniform buffer at binding 0.
pub fn allocate_descriptor_sets(uniform_buffers: &Vec<HostBuffer>) -> (sets: Vec<DescriptorSet>)
    requires
        uniform_buffers@.len() == FRAME_COUNT,
    ensures
        sets@.len() == FRAME_COUNT,
        forall|i: int|
            0 <= i < sets@.len() ==> #[trigger] sets@[i] == (DescriptorSet {
                binding: 0,
                descriptor_type: DESCRIPTOR_TYPE_UNIFORM_BUFFER,
                buffer_index: i as usize,
                offset: 0,
                range: UNIFORM_BUFFER_SIZE,
            }),
{
    let mut sets: Vec<DescriptorSet> = Vec::new();
    let n = uniform_buffers.len();
    for i in 0..n
        invariant
            n == FRAME_COUNT,
            sets@.len() == i,
            forall|j: int|
                0 <= j < i ==> #[trigger] sets@[j] == (DescriptorSet {
                    binding: 0,
                    descriptor_type: DESCRIPTOR_TYPE_UNIFORM_BUFFER,
                    buffer_index: j as usize,
                    offset: 0,
                    range: UNIFORM_BUFFER_SIZE,
                }),
    {
        sets.push(
            DescriptorSet {
                binding: 0,
                descriptor_type: DESCRIPTOR_TYPE_UNIFORM_BUFFER,
                buffer_index: i,
                offset: 0,
                range: UNIFORM_BUFFER_SIZE,
            },
        );
    }
    sets
}

} // verus!
