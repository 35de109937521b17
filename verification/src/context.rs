//! The backend context: instance-creation planning (extensions, validation
//! layers and the retry without them), the logical-device and command-pool
//! plans, and the long-lived render state — built up in a fixed order and
//! torn down in strict reverse, with the frame loop and resize cycle run
//! through it.

use crate::FRAME_COUNT;
use crate::UNIFORM_BUFFER_SIZE;
use crate::descriptor::{allocate_descriptor_sets, DescriptorSet, DESCRIPTOR_TYPE_UNIFORM_BUFFER};
use crate::device::{sorted_desc, gpu_well_formed, GpuInfo};
use crate::frame::{
    begin_transition, present_transition, AcquireOutcome, BeginAction, FrameSync, PresentAction,
};
use crate::memory::{
    chosen_image_format, FormatProperties, GpuAllocator, GpuImage, HostBuffer, ImageTiling,
    BUFFER_USAGE_UNIFORM, FORMAT_FEATURE_DEPTH_STENCIL, FORMAT_NONE, IMAGE_USAGE_DEPTH_STENCIL,
    MEMORY_HOST_COHERENT, MEMORY_HOST_VISIBLE,
};
use crate::memory::choose_fmt;
use crate::swapchain::{plan_swapchain, chosen_surface_format, chosen_present_mode, Swapchain};
use vstd::prelude::*;

verus! {

/// Command-pool flag: individual command buffers may be reset.
pub const COMMAND_POOL_RESET: u32 = 0x2;

/// Command-pool flag: buffers from it are short-lived.
pub const COMMAND_POOL_TRANSIENT: u32 = 0x1;

/// The platform the instance is created for.
#[derive(Clone, Copy, PartialEq, Eq, Structural, Debug)]
pub enum Platform {
    Windows,
    Unix,
}

/// What the first instance-creation attempt reported.
#[derive(Clone, Copy, PartialEq, Eq, Structural, Debug)]
pub enum InstanceCreateResult {
    Created,
    /// The requested validation layer is not installed.
    LayerNotPresent,
    OtherFailure,
}

/// What to do after the first instance-creation attempt.
#[derive(Clone, Copy, PartialEq, Eq, Structural, Debug)]
pub enum InstanceRetry {
    /// The instance exists; carry on.
    Done,
    /// Retry exactly once, with validation layers disabled.
    RetryWithoutLayers,
    /// Initialization cannot continue.
    Fatal,
}

/// The surface extension each platform needs.
pub open spec fn platform_surface_extension(p: Platform) -> Seq<char> {
    match p {
        Platform::Windows => "VK_KHR_win32_surface"@,
        Platform::Unix => "VK_KHR_xcb_surface"@,
    }
}

/// The instance extensions to request: the debug-messenger extension when
/// debugging is wanted, the surface extension, and the platform's own
/// surface extension.
pub fn instance_extensions(platform: Platform, debug: bool) -> (r: Vec<&'static str>)
    ensures
        debug ==> r@.len() == 3 && r@[0]@ == "VK_EXT_debug_utils"@ && r@[1]@ == "VK_KHR_surface"@
            && r@[2]@ == platform_surface_extension(platform),
        !debug ==> r@.len() == 2 && r@[0]@ == "VK_KHR_surface"@ && r@[1]@
            == platform_surface_extension(platform),
{
    let mut v: Vec<&'static str> = Vec::new();
    if debug {
        v.push("VK_EXT_debug_utils");
    }
    v.push("VK_KHR_surface");
    match platform {
        Platform::Windows => v.push("VK_KHR_win32_surface"),
        Platform::Unix => v.push("VK_KHR_xcb_surface"),
    }
    v
}

/// The validation layer requested on debug builds.
pub fn validation_layer() -> (r: &'static str)
    ensures
        r@ == "VK_LAYER_KHRONOS_validation"@,
{
    "VK_LAYER_KHRONOS_validation"
}

/// The retry rule of instance creation: a missing validation layer is the
/// one failure retried, exactly once and with layers disabled; success
/// needs nothing, anything else is fatal.
pub fn instance_retry(first: InstanceCreateResult) -> (r: InstanceRetry)
    ensures
        r == (match first {
            InstanceCreateResult::Created => InstanceRetry::Done,
            InstanceCreateResult::LayerNotPresent => InstanceRetry::RetryWithoutLayers,
            InstanceCreateResult::OtherFailure => InstanceRetry::Fatal,
        }),
{
    match first {
        InstanceCreateResult::Created => InstanceRetry::Done,
        InstanceCreateResult::LayerNotPresent => InstanceRetry::RetryWithoutLayers,
        InstanceCreateResult::OtherFailure => InstanceRetry::Fatal,
    }
}

/// Packs an API version number the way the driver reads it: variant,
/// major, minor and patch in fixed bit fields.
pub fn make_api_version(variant: u32, major: u32, minor: u32, patch: u32) -> (v: u32)
    requires
        variant < 8,
        major < 128,
        minor < 1024,
        patch < 4096,
    ensures
        v == variant * 0x20000000 + major * 0x400000 + minor * 0x1000 + patch,
{
    let v = (variant << 29u32) | (major << 22u32) | (minor << 12u32) | patch;
    assert(v == variant * 0x20000000 + major * 0x400000 + minor * 0x1000 + patch) by (bit_vector)
        requires
            variant < 8,
            major < 128,
            minor < 1024,
            patch < 4096,
            v == (variant << 29u32) | (major << 22u32) | (minor << 12u32) | patch,
    ;
    v
}

/// What the logical device is created with.
#[derive(Clone, Debug)]
pub struct DeviceRequest {
    /// One queue is requested per listed family: the graphics family, and
    /// the compute family only when it differs.
    pub queue_family_indices: Vec<usize>,
    /// The dynamic-rendering capability bit the frame loop depends on.
    pub dynamic_rendering: bool,
}

/// Plans the logical device for the selected adapter.
pub fn plan_device(gpu: &GpuInfo) -> (r: DeviceRequest)
    ensures
        gpu.graphics_family_index != gpu.compute_family_index ==> r.queue_family_indices@ == seq![
            gpu.graphics_family_index,
            gpu.compute_family_index,
        ],
        gpu.graphics_family_index == gpu.compute_family_index ==> r.queue_family_indices@ == seq![
            gpu.graphics_family_index,
        ],
        r.dynamic_rendering,
{
    let mut queue_family_indices: Vec<usize> = Vec::new();
    queue_family_indices.push(gpu.graphics_family_index);
    if gpu.graphics_family_index != gpu.compute_family_index {
        queue_family_indices.push(gpu.compute_family_index);
        proof {
            assert(queue_family_indices@ =~= seq![
                gpu.graphics_family_index,
                gpu.compute_family_index,
            ]);
        }
    } else {
        proof {
            assert(queue_family_indices@ =~= seq![gpu.graphics_family_index]);
        }
    }
    DeviceRequest { queue_family_indices, dynamic_rendering: true }
}

/// What one command pool is created with.
#[derive(Clone, Copy, PartialEq, Eq, Structural, Debug)]
pub struct CommandPoolPlan {
    pub flags: u32,
    pub queue_family_index: usize,
}

/// Plans the two command pools on the graphics family: the long-lived
/// resettable one for per-frame buffers, and the transient one for one-shot
/// transfers.
pub fn create_command_pools(gpu: &GpuInfo) -> (r: (CommandPoolPlan, CommandPoolPlan))
    ensures
        r.0 == (CommandPoolPlan {
            flags: COMMAND_POOL_RESET,
            queue_family_index: gpu.graphics_family_index,
        }),
        r.1 == (CommandPoolPlan {
            flags: COMMAND_POOL_RESET | COMMAND_POOL_TRANSIENT,
            queue_family_index: gpu.graphics_family_index,
        }),
{
    (
        CommandPoolPlan {
            flags: COMMAND_POOL_RESET,
            queue_family_index: gpu.graphics_family_index,
        },
        CommandPoolPlan {
            flags: COMMAND_POOL_RESET | COMMAND_POOL_TRANSIENT,
            queue_family_index: gpu.graphics_family_index,
        },
    )
}

/// Why initialization can fail after device ranking.
#[derive(Clone, Copy, PartialEq, Eq, Structural, Debug)]
pub enum InitError {
    /// No candidate depth format offers depth/stencil attachment under
    /// optimal tiling.
    NoDepthFormat,
}

/// One top-level step of the resize cycle, in the order they must happen.
#[derive(Clone, Copy, PartialEq, Eq, Structural, Debug)]
pub enum ResizeStep {
    WaitDeviceIdle,
    DestroyRenderTargets,
    DestroyPresentationChain,
    CreatePresentationChain,
    CreateRenderTargets,
}

/// One top-level step of the shutdown, in the order they must happen.
#[derive(Clone, Copy, PartialEq, Eq, Structural, Debug)]
pub enum ShutdownStep {
    WaitDeviceIdle,
    ReleaseUniformBuffers,
    DestroyDescriptorPool,
    DestroyDescriptorLayout,
    DestroyRenderTargets,
    DestroyPresentationChain,
    DestroySemaphores,
    DestroyFences,
    DestroyTransientPool,
    DestroyMainPool,
    DestroyAllocator,
    DestroyDevice,
    DestroySurface,
    DestroyInstance,
}

/// The resize cycle: drain the device, drop the render targets and the
/// chain, then recreate both at the new size.
pub open spec fn resize_order() -> Seq<ResizeStep> {
    seq![
        ResizeStep::WaitDeviceIdle,
        ResizeStep::DestroyRenderTargets,
        ResizeStep::DestroyPresentationChain,
        ResizeStep::CreatePresentationChain,
        ResizeStep::CreateRenderTargets,
    ]
}

/// The strict teardown order: drain the device first; release every
/// allocation (uniform buffers, render targets) before the allocator goes,
/// destroy the device only after everything made from it, the surface after
/// the device, the instance last.
pub open spec fn shutdown_order() -> Seq<ShutdownStep> {
    seq![
        ShutdownStep::WaitDeviceIdle,
        ShutdownStep::ReleaseUniformBuffers,
        ShutdownStep::DestroyDescriptorPool,
        ShutdownStep::DestroyDescriptorLayout,
        ShutdownStep::DestroyRenderTargets,
        ShutdownStep::DestroyPresentationChain,
        ShutdownStep::DestroySemaphores,
        ShutdownStep::DestroyFences,
        ShutdownStep::DestroyTransientPool,
        ShutdownStep::DestroyMainPool,
        ShutdownStep::DestroyAllocator,
        ShutdownStep::DestroyDevice,
        ShutdownStep::DestroySurface,
        ShutdownStep::DestroyInstance,
    ]
}

/// The long-lived render state: the ranked adapters and the active one, the
/// frame synchronizer, the presentation chain and its depth target, the
/// sub-allocator's accounting, and the per-slot uniform buffers and
/// descriptor sets.
pub struct RenderState {
    pub gpus: Vec<GpuInfo>,
    pub gpu: usize,
    pub sync: FrameSync,
    pub chain: Swapchain,
    pub allocator: GpuAllocator,
    pub depth_format: u32,
    pub depth: GpuImage,
    pub uniform_buffers: Vec<HostBuffer>,
    pub descriptor_sets: Vec<DescriptorSet>,
    /// Whether the game's GPU resources are currently loaded.
    pub loaded: bool,
}

impl RenderState {
    pub open spec fn wf(self) -> bool {
        &&& self.gpus@.len() > 0
        &&& self.gpu < self.gpus@.len()
        &&& forall|i: int| 0 <= i < self.gpus@.len() ==> gpu_well_formed(#[trigger] self.gpus@[i])
        &&& sorted_desc(self.gpus@)
        &&& self.sync.wf()
        &&& self.chain.wf()
        &&& self.depth_format != FORMAT_NONE
        &&& self.depth.format == self.depth_format
        &&& self.depth.usage == IMAGE_USAGE_DEPTH_STENCIL
        &&& self.depth.width == self.chain.width
        &&& self.depth.height == self.chain.height
        &&& self.uniform_buffers@.len() == FRAME_COUNT
        &&& forall|i: int|
            0 <= i < self.uniform_buffers@.len() ==> (#[trigger] self.uniform_buffers@[i]).wf()
                && self.uniform_buffers@[i].buffer.size == UNIFORM_BUFFER_SIZE
        &&& self.descriptor_sets@.len() == FRAME_COUNT
        &&& forall|i: int|
            0 <= i < self.descriptor_sets@.len() ==> #[trigger] self.descriptor_sets@[i] == (
            DescriptorSet {
                binding: 0,
                descriptor_type: DESCRIPTOR_TYPE_UNIFORM_BUFFER,
                buffer_index: i as usize,
                offset: 0,
                range: UNIFORM_BUFFER_SIZE,
            })
        &&& self.allocator.live_allocations == FRAME_COUNT + 1
    }

    /// Assembles the render state once the driver objects exist: the ranked
    /// adapters (index 0 active), the chain the driver created at the given
    /// size, the depth target in the first candidate format the device
    /// supports, and the per-slot uniform buffers and descriptor sets.
    /// Fails exactly when no depth candidate qualifies.
    pub fn init(
        gpus: Vec<GpuInfo>,
        width: u32,
        height: u32,
        depth_props: Vec<FormatProperties>,
        images: Vec<u64>,
        views: Vec<u64>,
    ) -> (r: Result<RenderState, InitError>)
        requires
            gpus@.len() > 0,
            forall|i: int| 0 <= i < gpus@.len() ==> gpu_well_formed(#[trigger] gpus@[i]),
            sorted_desc(gpus@),
            images@.len() == FRAME_COUNT,
            views@.len() == FRAME_COUNT,
        ensures
            match r {
                Ok(s) => {
                    &&& s.wf()
                    &&& s.gpus@ == gpus@
                    &&& s.gpu == 0
                    &&& s.chain.width == width
                    &&& s.chain.height == height
                    &&& s.chain.images@ == images@
                    &&& s.chain.views@ == views@
                    &&& s.chain.format == chosen_surface_format(gpus@[0].caps.surface_formats@)
                    &&& s.chain.present_mode == chosen_present_mode(gpus@[0].caps.present_modes@)
                    &&& s.chain.generation@ == 0
                    &&& s.depth_format == chosen_image_format(
                        depth_props@,
                        ImageTiling::Optimal,
                        FORMAT_FEATURE_DEPTH_STENCIL,
                    )
                    &&& !s.sync.pending_resize
                    &&& !s.sync.in_frame()
                    &&& s.sync.frame_index == 0
                    &&& s.sync.log@ == Seq::<crate::frame::FrameEvent>::empty()
                },
                Err(e) => {
                    &&& e == InitError::NoDepthFormat
                    &&& chosen_image_format(
                        depth_props@,
                        ImageTiling::Optimal,
                        FORMAT_FEATURE_DEPTH_STENCIL,
                    ) == FORMAT_NONE
                },
            },
    {
        let request = plan_swapchain(&gpus[0], width, height);
        let chain = Swapchain::create(&request, images, views);
        let depth_format = choose_fmt(
            &depth_props,
            ImageTiling::Optimal,
            FORMAT_FEATURE_DEPTH_STENCIL,
        );
        if depth_format == FORMAT_NONE {
            return Err(InitError::NoDepthFormat);
        }
        let mut allocator = GpuAllocator::new();
        let depth = match allocator.create_image(
            depth_format,
            width,
            height,
            IMAGE_USAGE_DEPTH_STENCIL,
            true,
            true,
        ) {
            Ok(img) => img,
            Err(_) => {
                // The step was granted, so this arm cannot be reached.
                return vstd::pervasive::unreached();
            },
        };
        let uniform_buffers = allocate_uniform_buffers(&mut allocator);
        let descriptor_sets = allocate_descriptor_sets(&uniform_buffers);
        let sync = FrameSync::new();
        Ok(
            RenderState {
                gpus,
                gpu: 0,
                sync,
                chain,
                allocator,
                depth_format,
                depth,
                uniform_buffers,
                descriptor_sets,
                loaded: false,
            },
        )
    }

    /// Loads the game's GPU resources unless they already are loaded;
    /// reports whether any loading work is to be done this call.
    pub fn load_resources(&mut self) -> (did_load: bool)
        requires
            old(self).wf(),
        ensures
            final(self).wf(),
            did_load == !old(self).loaded,
            *final(self) == (RenderState { loaded: true, ..*old(self) }),
    {
        let did_load = !self.loaded;
        self.loaded = true;
        did_load
    }

    /// Unloads the game's GPU resources unless none are loaded; reports
    /// whether any unloading work is to be done this call.
    pub fn unload_resources(&mut self) -> (did_unload: bool)
        requires
            old(self).wf(),
        ensures
            final(self).wf(),
            did_unload == old(self).loaded,
            *final(self) == (RenderState { loaded: false, ..*old(self) }),
    {
        let did_unload = self.loaded;
        self.loaded = false;
        did_unload
    }

    /// Switches the active adapter: a valid index becomes active, an
    /// out-of-range one changes nothing; either way the previously active
    /// index is returned.  The context itself is not rebuilt here — the
    /// caller re-runs initialization against the new index.
    pub fn set_gpu(&mut self, gpu_idx: usize) -> (old_idx: usize)
        requires
            old(self).wf(),
        ensures
            final(self).wf(),
            set_gpu_transition(*old(self), *final(self), gpu_idx, old_idx),
    {
        let old_idx = self.gpu;
        if gpu_idx < self.gpus.len() {
            self.gpu = gpu_idx;
        }
        old_idx
    }

    /// Begins a tick; see `FrameSync::begin_frame`.  Nothing but the frame
    /// synchronizer changes.
    pub fn begin_cmds(&mut self, acquire: AcquireOutcome) -> (action: BeginAction)
        requires
            old(self).wf(),
            !old(self).sync.pending_resize,
            !old(self).sync.in_frame(),
        ensures
            final(self).wf(),
            begin_transition(old(self).sync, final(self).sync, acquire, action),
            *final(self) == (RenderState { sync: final(self).sync, ..*old(self) }),
    {
        self.sync.begin_frame(acquire)
    }

    /// Ends a tick; see `FrameSync::present`.  Nothing but the frame
    /// synchronizer changes.
    pub fn present(&mut self) -> (action: PresentAction)
        requires
            old(self).wf(),
            old(self).sync.in_frame() || old(self).sync.pending_resize,
        ensures
            final(self).wf(),
            present_transition(old(self).sync, final(self).sync, action),
            *final(self) == (RenderState { sync: final(self).sync, ..*old(self) }),
    {
        self.sync.present()
    }

    /// Performs the pending resize cycle: after the device is drained, the
    /// depth target and the chain are destroyed and both recreated at the
    /// new size — the chain's image count is again `FRAME_COUNT`, format and
    /// mode are kept, every prior image and view handle becomes invalid, and
    /// the allocator owns exactly what it owned before.
    pub fn apply_resize(&mut self, width: u32, height: u32, images: Vec<u64>, views: Vec<u64>)
        -> (steps: Vec<ResizeStep>)
        requires
            old(self).wf(),
            old(self).sync.pending_resize,
            images@.len() == FRAME_COUNT,
            views@.len() == FRAME_COUNT,
        ensures
            final(self).wf(),
            steps@ == resize_order(),
            final(self).chain.width == width,
            final(self).chain.height == height,
            final(self).chain.images@ == images@,
            final(self).chain.views@ == views@,
            final(self).chain.format == old(self).chain.format,
            final(self).chain.present_mode == old(self).chain.present_mode,
            final(self).chain.generation@ == old(self).chain.generation@ + 1,
            final(self).depth_format == old(self).depth_format,
            final(self).allocator.live_allocations == old(self).allocator.live_allocations,
            final(self).sync == old(self).sync,
            final(self).gpus@ == old(self).gpus@,
            final(self).gpu == old(self).gpu,
    {
        // Device idle first: nothing may still read the old targets.
        let old_depth = self.depth;
        self.allocator.destroy_image(old_depth);
        self.chain.rebuild(width, height, images, views);
        let new_depth = match self.allocator.create_image(
            self.depth_format,
            width,
            height,
            IMAGE_USAGE_DEPTH_STENCIL,
            true,
            true,
        ) {
            Ok(img) => img,
            Err(_) => {
                // The step was granted, so this arm cannot be reached.
                vstd::pervasive::unreached()
            },
        };
        self.depth = new_depth;
        let mut steps: Vec<ResizeStep> = Vec::new();
        steps.push(ResizeStep::WaitDeviceIdle);
        steps.push(ResizeStep::DestroyRenderTargets);
        steps.push(ResizeStep::DestroyPresentationChain);
        steps.push(ResizeStep::CreatePresentationChain);
        steps.push(ResizeStep::CreateRenderTargets);
        proof {
            assert(steps@ =~= resize_order());
        }
        steps
    }

    /// Tears the whole backend down, in the strict reverse of creation:
    /// drain the device, release the uniform buffers and the depth target
    /// (every allocation goes before the allocator), then pool, layout,
    /// chain, synchronization objects, command pools, allocator, device,
    /// surface and instance, in that order.
    pub fn shutdown(self) -> (steps: Vec<ShutdownStep>)
        requires
            self.wf(),
            !self.sync.in_frame(),
        ensures
            steps@ == shutdown_order(),
    {
        let RenderState { allocator, depth, uniform_buffers, .. } = self;
        let mut allocator = allocator;
        let mut remaining = uniform_buffers;
        while remaining.len() > 0
            invariant
                allocator.live_allocations >= remaining@.len() + 1,
            decreases remaining@.len(),
        {
            let host = remaining.pop().unwrap();
            let buffer = host.unmap();
            allocator.destroy_buffer(buffer);
        }
        allocator.destroy_image(depth);
        let mut steps: Vec<ShutdownStep> = Vec::new();
        steps.push(ShutdownStep::WaitDeviceIdle);
        steps.push(ShutdownStep::ReleaseUniformBuffers);
        steps.push(ShutdownStep::DestroyDescriptorPool);
        steps.push(ShutdownStep::DestroyDescriptorLayout);
        steps.push(ShutdownStep::DestroyRenderTargets);
        steps.push(ShutdownStep::DestroyPresentationChain);
        steps.push(ShutdownStep::DestroySemaphores);
        steps.push(ShutdownStep::DestroyFences);
        steps.push(ShutdownStep::DestroyTransientPool);
        steps.push(ShutdownStep::DestroyMainPool);
        steps.push(ShutdownStep::DestroyAllocator);
        steps.push(ShutdownStep::DestroyDevice);
        steps.push(ShutdownStep::DestroySurface);
        steps.push(ShutdownStep::DestroyInstance);
        proof {
            assert(steps@ =~= shutdown_order());
        }
        steps
    }
}

/// Exactly how `set_gpu` steps the state.
pub open spec fn set_gpu_transition(
    pre: RenderState,
    post: RenderState,
    gpu_idx: usize,
    old_idx: usize,
) -> bool {
    &&& old_idx == pre.gpu
    &&& post == (RenderState {
        gpu: if gpu_idx < pre.gpus@.len() {
            gpu_idx
        } else {
            pre.gpu
        },
        ..pre
    })
}

/// Allocates the per-slot uniform buffers: `FRAME_COUNT` host-visible,
/// host-coherent buffers of the uniform data size, each persistently
/// mapped.  A driver failure here is fatal to the engine, so this models
/// the path on which every step was granted.
fn allocate_uniform_buffers(allocator: &mut GpuAllocator) -> (r: Vec<HostBuffer>)
    requires
        old(allocator).live_allocations + FRAME_COUNT <= usize::MAX,
    ensures
        r@.len() == FRAME_COUNT,
        forall|i: int|
            0 <= i < r@.len() ==> (#[trigger] r@[i]).wf() && r@[i].buffer.size
                == UNIFORM_BUFFER_SIZE && r@[i].buffer.usage == BUFFER_USAGE_UNIFORM
                && r@[i].buffer.memory_flags == MEMORY_HOST_VISIBLE | MEMORY_HOST_COHERENT,
        final(allocator).live_allocations == old(allocator).live_allocations + FRAME_COUNT,
{
    let mut buffers: Vec<HostBuffer> = Vec::new();
    let ghost base = allocator.live_allocations as int;
    for i in 0..FRAME_COUNT
        invariant
            buffers@.len() == i,
            allocator.live_allocations == base + i,
            base + FRAME_COUNT <= usize::MAX,
            forall|j: int|
                0 <= j < i ==> (#[trigger] buffers@[j]).wf() && buffers@[j].buffer.size
                    == UNIFORM_BUFFER_SIZE && buffers@[j].buffer.usage == BUFFER_USAGE_UNIFORM
                    && buffers@[j].buffer.memory_flags == MEMORY_HOST_VISIBLE
                    | MEMORY_HOST_COHERENT,
    {
        let buffer = match allocator.create_buffer(
            UNIFORM_BUFFER_SIZE,
            BUFFER_USAGE_UNIFORM,
            MEMORY_HOST_VISIBLE | MEMORY_HOST_COHERENT,
            true,
        ) {
            Ok(b) => b,
            Err(_) => {
                // The step was granted, so this arm cannot be reached.
                vstd::pervasive::unreached()
            },
        };
        let host = match HostBuffer::from_buffer(buffer, true) {
            Ok(h) => h,
            Err(_) => {
                // The mapping was granted, so this arm cannot be reached.
                vstd::pervasive::unreached()
            },
        };
        buffers.push(host);
    }
    buffers
}

/// Selecting the already-active adapter is a no-op: it reports the same
/// index back as the previous one and changes nothing at all.
pub proof fn lemma_select_current_device_is_noop(
    pre: RenderState,
    post: RenderState,
    old_idx: usize,
)
    requires
        pre.gpu < pre.gpus@.len(),
        set_gpu_transition(pre, post, pre.gpu, old_idx),
    ensures
        post == pre,
        old_idx == pre.gpu,
{
}

/// A completed tick — begin then present, whatever the acquire said —
/// leaves the machine quiescent: no slot is mid-recording and no resize is
/// pending, so the strict-order shutdown's preconditions hold.  Shutdown
/// after any number of frame cycles therefore proceeds without violating
/// the teardown order.
pub proof fn lemma_tick_leaves_machine_quiescent(
    s0: FrameSync,
    s1: FrameSync,
    s2: FrameSync,
    acquire: AcquireOutcome,
    a1: BeginAction,
    a2: PresentAction,
)
    requires
        s0.wf(),
        !s0.pending_resize,
        !s0.in_frame(),
        s1.wf(),
        s2.wf(),
        begin_transition(s0, s1, acquire, a1),
        present_transition(s1, s2, a2),
    ensures
        !s2.in_frame(),
        !s2.pending_resize,
{
    if s1.pending_resize {
        assert(s2.phases@ == s1.phases@);
    } else {
        assert(s2.phases@[s2.frame_index as int] != crate::frame::SlotPhase::Recording);
    }
}

} // verus!
