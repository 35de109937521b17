//! GPU memory bookkeeping: buffers and images with their allocations, the
//! pairing discipline that never leaks an allocation when a second step
//! fails, persistently host-mapped buffers, the synchronous full-buffer copy
//! protocol, and the choice of an image format from device-reported feature
//! bits.
//!
//! A buffer's `data` models what the host has written into it (directly
//! through a mapping, or through a copy); the allocator's counter models how
//! many allocations are live and must be released before the allocator is
//! torn down.

use vstd::prelude::*;

verus! {

/// Memory property bit: the host can map the allocation.
pub const MEMORY_HOST_VISIBLE: u32 = 0x2;

/// Memory property bit: host writes need no explicit flush.
pub const MEMORY_HOST_COHERENT: u32 = 0x4;

/// Buffer usage bit: source of a transfer.
pub const BUFFER_USAGE_TRANSFER_SRC: u32 = 0x1;

/// Buffer usage bit: destination of a transfer.
pub const BUFFER_USAGE_TRANSFER_DST: u32 = 0x2;

/// Buffer usage bit: uniform data for shaders.
pub const BUFFER_USAGE_UNIFORM: u32 = 0x10;

/// Image usage bit: depth/stencil attachment.
pub const IMAGE_USAGE_DEPTH_STENCIL: u32 = 0x20;

/// Format feature bit: the format can back a depth/stencil attachment.
pub const FORMAT_FEATURE_DEPTH_STENCIL: u64 = 0x200;

/// Driver code of the 32-bit float depth format with stencil.
pub const FORMAT_D32_SFLOAT_S8_UINT: u32 = 130;

/// Driver code of the 24-bit depth format with stencil.
pub const FORMAT_D24_UNORM_S8_UINT: u32 = 129;

/// Driver code for "no format".
pub const FORMAT_NONE: u32 = 0;

/// A resource-creation step the driver refused.
#[derive(Clone, Copy, PartialEq, Eq, Structural, Debug)]
pub enum AllocError {
    /// The buffer or image allocation itself failed.
    AllocationFailed,
    /// The image was allocated but its view could not be created; the
    /// allocation was released again before returning.
    ViewFailed,
}

/// The sub-allocator, modeled by how many allocations it currently owns.
pub struct GpuAllocator {
    pub live_allocations: usize,
}

/// A buffer and its allocation.  `data` models the bytes the host has put
/// there; of bytes never written nothing is promised.
#[derive(Debug)]
pub struct GpuBuffer {
    pub size: usize,
    pub usage: u32,
    pub memory_flags: u32,
    pub data: Vec<u8>,
}

impl GpuBuffer {
    pub open spec fn wf(self) -> bool {
        self.data@.len() == self.size
    }
}

/// An image, its allocation and its view.
#[derive(Clone, Copy, PartialEq, Eq, Structural, Debug)]
pub struct GpuImage {
    pub format: u32,
    pub width: u32,
    pub height: u32,
    pub usage: u32,
}

/// A buffer whose allocation is persistently host-mapped, so the host
/// writes uniform data straight into it.
#[derive(Debug)]
pub struct HostBuffer {
    pub buffer: GpuBuffer,
    pub mapped: bool,
}

impl HostBuffer {
    pub open spec fn wf(self) -> bool {
        &&& self.buffer.wf()
        &&& self.mapped
    }
}

/// The contents of `data` after `bytes` is written at `offset`.
pub open spec fn spliced(data: Seq<u8>, offset: int, bytes: Seq<u8>) -> Seq<u8> {
    data.take(offset) + bytes + data.skip(offset + bytes.len())
}

/// The contents of a copy destination after a full-buffer copy from `src`.
pub open spec fn copied_into(src: Seq<u8>, dst: Seq<u8>) -> Seq<u8> {
    src + dst.skip(src.len() as int)
}

/// One step of the synchronous copy protocol.
#[derive(Clone, Copy, PartialEq, Eq, Structural, Debug)]
pub enum CopyStep {
    AllocateTransientCommandBuffer,
    BeginCommands,
    RecordFullCopy,
    EndCommands,
    SubmitToQueue,
    WaitQueueIdle,
    FreeCommandBuffer,
}

/// The synchronous copy protocol, in order: a one-shot command buffer from
/// the transient pool, record, submit, drain the queue, free the buffer.
pub open spec fn copy_protocol() -> Seq<CopyStep> {
    seq![
        CopyStep::AllocateTransientCommandBuffer,
        CopyStep::BeginCommands,
        CopyStep::RecordFullCopy,
        CopyStep::EndCommands,
        CopyStep::SubmitToQueue,
        CopyStep::WaitQueueIdle,
        CopyStep::FreeCommandBuffer,
    ]
}

impl GpuAllocator {
    /// A fresh allocator owning nothing.
    pub fn new() -> (a: GpuAllocator)
        ensures
            a.live_allocations == 0,
    {
        GpuAllocator { live_allocations: 0 }
    }

    /// Creates a buffer of `size` bytes.  `driver_ok` is whether the driver
    /// granted the allocation: on failure an error comes back and the
    /// allocator owns exactly what it owned before.
    pub fn create_buffer(&mut self, size: usize, usage: u32, memory_flags: u32, driver_ok: bool)
        -> (r: Result<GpuBuffer, AllocError>)
        requires
            old(self).live_allocations < usize::MAX,
        ensures
            match r {
                Ok(b) => {
                    &&& driver_ok
                    &&& b.wf()
                    &&& b.size == size
                    &&& b.usage == usage
                    &&& b.memory_flags == memory_flags
                    &&& final(self).live_allocations == old(self).live_allocations + 1
                },
                Err(e) => {
                    &&& !driver_ok
                    &&& e == AllocError::AllocationFailed
                    &&& final(self).live_allocations == old(self).live_allocations
                },
            },
    {
        if !driver_ok {
            return Err(AllocError::AllocationFailed);
        }
        let mut data: Vec<u8> = Vec::new();
        data.resize(size, 0u8);
        self.live_allocations = self.live_allocations + 1;
        Ok(GpuBuffer { size, usage, memory_flags, data })
    }

    /// Releases a buffer's allocation.
    pub fn destroy_buffer(&mut self, buffer: GpuBuffer)
        requires
            old(self).live_allocations > 0,
        ensures
            final(self).live_allocations == old(self).live_allocations - 1,
    {
        let _ = buffer;
        self.live_allocations = self.live_allocations - 1;
    }

    /// Creates an image and then a view for it.  `image_ok` and `view_ok`
    /// are the driver's answers to the two steps.  Either failure returns an
    /// error, and — the pairing discipline — a failed view creation releases
    /// the image allocation again, so the allocator never gains an
    /// allocation on any error path.
    pub fn create_image(&mut self, format: u32, width: u32, height: u32, usage: u32,
        image_ok: bool, view_ok: bool) -> (r: Result<GpuImage, AllocError>)
        requires
            old(self).live_allocations < usize::MAX,
        ensures
            match r {
                Ok(img) => {
                    &&& image_ok && view_ok
                    &&& img.format == format
                    &&& img.width == width
                    &&& img.height == height
                    &&& img.usage == usage
                    &&& final(self).live_allocations == old(self).live_allocations + 1
                },
                Err(e) => {
                    &&& !(image_ok && view_ok)
                    &&& e == (if image_ok {
                        AllocError::ViewFailed
                    } else {
                        AllocError::AllocationFailed
                    })
                    &&& final(self).live_allocations == old(self).live_allocations
                },
            },
    {
        if !image_ok {
            return Err(AllocError::AllocationFailed);
        }
        self.live_allocations = self.live_allocations + 1;
        if !view_ok {
            // Release the image again rather than leak it.
            self.live_allocations = self.live_allocations - 1;
            return Err(AllocError::ViewFailed);
        }
        Ok(GpuImage { format, width, height, usage })
    }

    /// Releases an image: its view first, then the allocation.
    pub fn destroy_image(&mut self, image: GpuImage)
        requires
            old(self).live_allocations > 0,
        ensures
            final(self).live_allocations == old(self).live_allocations - 1,
    {
        let _ = image;
        self.live_allocations = self.live_allocations - 1;
    }
}

impl HostBuffer {
    /// Maps an existing buffer persistently.  `map_ok` is the driver's
    /// answer: when mapping fails, the buffer comes back unchanged so the
    /// caller can release it — nothing is leaked.
    pub fn from_buffer(buffer: GpuBuffer, map_ok: bool) -> (r: Result<HostBuffer, GpuBuffer>)
        ensures
            match r {
                Ok(h) => map_ok && h.mapped && h.buffer == buffer,
                Err(b) => !map_ok && b == buffer,
            },
    {
        if !map_ok {
            return Err(buffer);
        }
        Ok(HostBuffer { buffer, mapped: true })
    }

    /// Writes `bytes` at `offset` through the mapping.  The memory is
    /// host-coherent, so the write needs no flush and is immediately the
    /// buffer's content.
    pub fn write_bytes(&mut self, offset: usize, bytes: &[u8])
        requires
            old(self).wf(),
            offset + bytes@.len() <= old(self).buffer.size,
        ensures
            final(self).wf(),
            final(self).buffer.size == old(self).buffer.size,
            final(self).buffer.usage == old(self).buffer.usage,
            final(self).buffer.memory_flags == old(self).buffer.memory_flags,
            final(self).buffer.data@ == spliced(old(self).buffer.data@, offset as int, bytes@),
    {
        let n = bytes.len();
        let ghost orig = self.buffer.data@;
        for i in 0..n
            invariant
                n == bytes@.len(),
                offset + n <= orig.len(),
                self.buffer.data@.len() == orig.len(),
                self.buffer.size == orig.len(),
                self.buffer.usage == old(self).buffer.usage,
                self.buffer.memory_flags == old(self).buffer.memory_flags,
                self.mapped == old(self).mapped,
                old(self).wf(),
                forall|j: int| 0 <= j < offset ==> self.buffer.data@[j] == orig[j],
                forall|j: int|
                    offset <= j < offset + i ==> self.buffer.data@[j] == bytes@[j - offset],
                forall|j: int|
                    offset + i <= j < orig.len() ==> self.buffer.data@[j] == orig[j],
        {
            let b = bytes[i];
            let r = &mut self.buffer.data[offset + i];
            *r = b;
        }
        proof {
            assert(self.buffer.data@ =~= spliced(orig, offset as int, bytes@));
        }
    }

    /// Unmaps and hands the buffer back for release.
    pub fn unmap(self) -> (b: GpuBuffer)
        ensures
            b == self.buffer,
    {
        self.buffer
    }
}

/// Copies the whole source buffer into the start of the destination through
/// a one-shot command buffer, synchronously.  Returns the protocol steps the
/// driver must be driven through, in order.
pub fn copy_buffer(src: &GpuBuffer, dst: &mut GpuBuffer) -> (steps: Vec<CopyStep>)
    requires
        src.wf(),
        old(dst).wf(),
        src.size <= old(dst).size,
    ensures
        final(dst).wf(),
        final(dst).size == old(dst).size,
        final(dst).usage == old(dst).usage,
        final(dst).memory_flags == old(dst).memory_flags,
        final(dst).data@ == copied_into(src.data@, old(dst).data@),
        steps@ == copy_protocol(),
{
    let n = src.size;
    let ghost orig = dst.data@;
    for i in 0..n
        invariant
            n == src.data@.len(),
            src.wf(),
            n <= orig.len(),
            dst.data@.len() == orig.len(),
            dst.size == orig.len(),
            dst.usage == old(dst).usage,
            dst.memory_flags == old(dst).memory_flags,
            forall|j: int| 0 <= j < i ==> dst.data@[j] == src.data@[j],
            forall|j: int| i <= j < orig.len() ==> dst.data@[j] == orig[j],
    {
        let b = src.data[i];
        let r = &mut dst.data[i];
        *r = b;
    }
    proof {
        assert(dst.data@ =~= copied_into(src.data@, orig));
    }
    let mut steps: Vec<CopyStep> = Vec::new();
    steps.push(CopyStep::AllocateTransientCommandBuffer);
    steps.push(CopyStep::BeginCommands);
    steps.push(CopyStep::RecordFullCopy);
    steps.push(CopyStep::EndCommands);
    steps.push(CopyStep::SubmitToQueue);
    steps.push(CopyStep::WaitQueueIdle);
    steps.push(CopyStep::FreeCommandBuffer);
    proof {
        assert(steps@ =~= copy_protocol());
    }
    steps
}

/// The device-reported feature bits of one candidate format.
#[derive(Clone, Copy, PartialEq, Eq, Structural, Debug)]
pub struct FormatProperties {
    pub format: u32,
    pub linear_tiling_features: u64,
    pub optimal_tiling_features: u64,
}

/// How the image will be laid out in memory.
#[derive(Clone, Copy, PartialEq, Eq, Structural, Debug)]
pub enum ImageTiling {
    Linear,
    Optimal,
    Other,
}

/// Whether a candidate offers every required feature under the given
/// tiling.  Tilings beyond linear and optimal are never accepted.
pub open spec fn format_matches(p: FormatProperties, tiling: ImageTiling, required: u64) -> bool {
    match tiling {
        ImageTiling::Linear => p.linear_tiling_features & required == required,
        ImageTiling::Optimal => p.optimal_tiling_features & required == required,
        ImageTiling::Other => false,
    }
}

/// The first candidate matching, else the "no format" sentinel.
pub open spec fn chosen_image_format(
    props: Seq<FormatProperties>,
    tiling: ImageTiling,
    required: u64,
) -> u32
    decreases props.len(),
{
    if props.len() == 0 {
        FORMAT_NONE
    } else if format_matches(props[0], tiling, required) {
        props[0].format
    } else {
        chosen_image_format(props.drop_first(), tiling, required)
    }
}

/// Scans the candidates in order and returns the first whose feature bits
/// under the requested tiling satisfy the requirement, or the "no format"
/// sentinel when none does.
pub fn choose_fmt(props: &Vec<FormatProperties>, tiling: ImageTiling, required: u64) -> (r: u32)
    ensures
        r == chosen_image_format(props@, tiling, required),
{
    let n = props.len();
    proof {
        assert(props@.skip(0) =~= props@);
    }
    for i in 0..n
        invariant
            n == props@.len(),
            chosen_image_format(props@, tiling, required) == chosen_image_format(
                props@.skip(i as int),
                tiling,
                required,
            ),
        decreases n - i,
    {
        let p = props[i];
        let features: u64 = match tiling {
            ImageTiling::Linear => p.linear_tiling_features,
            ImageTiling::Optimal => p.optimal_tiling_features,
            ImageTiling::Other => 0,
        };
        let matches_here = match tiling {
            ImageTiling::Other => false,
            _ => features & required == required,
        };
        proof {
            assert(props@.skip(i as int)[0] == props@[i as int]);
            assert(matches_here == format_matches(props@[i as int], tiling, required));
            assert(props@.skip(i as int).drop_first() =~= props@.skip(i as int + 1));
        }
        if matches_here {
            return p.format;
        }
    }
    proof {
        assert(props@.skip(n as int) =~= Seq::<FormatProperties>::empty());
    }
    FORMAT_NONE
}

/// The depth formats the render targets try, in preference order.
pub fn depth_format_candidates() -> (r: Vec<u32>)
    ensures
        r@ == seq![FORMAT_D32_SFLOAT_S8_UINT, FORMAT_D24_UNORM_S8_UINT],
{
    let mut v: Vec<u32> = Vec::new();
    v.push(FORMAT_D32_SFLOAT_S8_UINT);
    v.push(FORMAT_D24_UNORM_S8_UINT);
    proof {
        assert(v@ =~= seq![FORMAT_D32_SFLOAT_S8_UINT, FORMAT_D24_UNORM_S8_UINT]);
    }
    v
}

/// Writing a pattern that fills a host-mapped buffer and copying that
/// buffer in full into an equally large destination puts exactly the
/// pattern there: what comes back from the copy is what was written.
pub proof fn lemma_mapped_write_copy_round_trip(
    buffer: Seq<u8>,
    pattern: Seq<u8>,
    dst: Seq<u8>,
)
    requires
        pattern.len() == buffer.len(),
        dst.len() == buffer.len(),
    ensures
        copied_into(spliced(buffer, 0, pattern), dst) == pattern,
{
    assert(spliced(buffer, 0, pattern) =~= pattern);
    assert(copied_into(pattern, dst) =~= pattern);
}

} // verus!
