//! The presentation chain: choosing a surface format and a present mode,
//! planning the chain's creation parameters, and the chain's own lifecycle —
//! created at a size, destroyed views-first, rebuilt wholesale on resize.

use crate::FRAME_COUNT;
use crate::device::{GpuInfo, SurfaceFormat};
use vstd::prelude::*;

verus! {

/// Driver code for a format left unspecified.
pub const FORMAT_UNDEFINED: u32 = 0;

/// Driver code for the standard 8-bit BGRA format.
pub const FORMAT_B8G8R8A8_UNORM: u32 = 44;

/// Driver code for the standard sRGB non-linear color space.
pub const COLOR_SPACE_SRGB_NONLINEAR: u32 = 0;

/// Driver code for the low-latency triple-buffering present mode.
pub const PRESENT_MODE_MAILBOX: u32 = 1;

/// Driver code for the vertical-sync present mode every device must offer.
pub const PRESENT_MODE_FIFO: u32 = 2;

/// Usage bit: images may serve as a transfer source (readback).
pub const IMAGE_USAGE_TRANSFER_SRC: u32 = 0x1;

/// Usage bit: images may be rendered to as color attachments.
pub const IMAGE_USAGE_COLOR_ATTACHMENT: u32 = 0x10;

/// The format the backend prefers when the device lets it choose.
pub open spec fn preferred_surface_format() -> SurfaceFormat {
    SurfaceFormat { format: FORMAT_B8G8R8A8_UNORM, color_space: COLOR_SPACE_SRGB_NONLINEAR }
}

/// The format choice rule: a lone undefined entry means free choice, so the
/// preferred format is taken; otherwise the preferred format is taken when
/// the device lists it, else the device's first listed format.
pub open spec fn chosen_surface_format(formats: Seq<SurfaceFormat>) -> SurfaceFormat {
    if formats.len() == 1 && formats[0].format == FORMAT_UNDEFINED {
        preferred_surface_format()
    } else if formats.contains(preferred_surface_format()) {
        preferred_surface_format()
    } else {
        formats[0]
    }
}

/// Chooses the chain's pixel format for a device.
pub fn choose_surface_format(gpu: &GpuInfo) -> (r: SurfaceFormat)
    requires
        gpu.caps.surface_formats@.len() > 0,
    ensures
        r == chosen_surface_format(gpu.caps.surface_formats@),
{
    let formats = &gpu.caps.surface_formats;
    if formats.len() == 1 && formats[0].format == FORMAT_UNDEFINED {
        return SurfaceFormat {
            format: FORMAT_B8G8R8A8_UNORM,
            color_space: COLOR_SPACE_SRGB_NONLINEAR,
        };
    }
    let n = formats.len();
    for i in 0..n
        invariant
            n == formats@.len(),
            formats@ == gpu.caps.surface_formats@,
            !(formats@.len() == 1 && formats@[0].format == FORMAT_UNDEFINED),
            forall|j: int| 0 <= j < i ==> formats@[j] != preferred_surface_format(),
    {
        let f = formats[i];
        if f.format == FORMAT_B8G8R8A8_UNORM && f.color_space == COLOR_SPACE_SRGB_NONLINEAR {
            proof {
                assert(formats@[i as int] == preferred_surface_format());
                assert(formats@.contains(preferred_surface_format()));
            }
            return f;
        }
    }
    proof {
        assert(!formats@.contains(preferred_surface_format()));
    }
    formats[0]
}

/// The present mode choice rule: the low-latency mailbox mode when the
/// device reports it, else the always-available vertical-sync mode.
pub open spec fn chosen_present_mode(modes: Seq<u32>) -> u32 {
    if modes.contains(PRESENT_MODE_MAILBOX) {
        PRESENT_MODE_MAILBOX
    } else {
        PRESENT_MODE_FIFO
    }
}

/// Chooses the chain's present mode for a device.
pub fn choose_present_mode(gpu: &GpuInfo) -> (r: u32)
    ensures
        r == chosen_present_mode(gpu.caps.present_modes@),
{
    let modes = &gpu.caps.present_modes;
    let n = modes.len();
    for i in 0..n
        invariant
            n == modes@.len(),
            modes@ == gpu.caps.present_modes@,
            forall|j: int| 0 <= j < i ==> modes@[j] != PRESENT_MODE_MAILBOX,
    {
        if modes[i] == PRESENT_MODE_MAILBOX {
            proof {
                assert(modes@.contains(PRESENT_MODE_MAILBOX));
            }
            return PRESENT_MODE_MAILBOX;
        }
    }
    PRESENT_MODE_FIFO
}

/// Everything the chain creation call is given: image count, format, size,
/// usage, and how the graphics and compute families share the images.
#[derive(Clone, Debug)]
pub struct SwapchainRequest {
    pub min_image_count: usize,
    pub format: SurfaceFormat,
    pub width: u32,
    pub height: u32,
    pub image_array_layers: u32,
    pub image_usage: u32,
    pub present_mode: u32,
    /// Both queue families access the images concurrently; exactly when the
    /// two family indices differ.
    pub concurrent_sharing: bool,
    /// The family indices handed to the driver under concurrent sharing,
    /// empty under exclusive sharing.
    pub sharing_family_indices: Vec<usize>,
}

/// Plans the chain for a device and a window size: `FRAME_COUNT` images,
/// the chosen format and mode, color-attachment plus transfer-source usage,
/// and concurrent sharing exactly when the device's graphics and compute
/// families differ.
pub fn plan_swapchain(gpu: &GpuInfo, width: u32, height: u32) -> (r: SwapchainRequest)
    requires
        gpu.caps.surface_formats@.len() > 0,
    ensures
        r.min_image_count == FRAME_COUNT,
        r.format == chosen_surface_format(gpu.caps.surface_formats@),
        r.width == width,
        r.height == height,
        r.image_array_layers == 1,
        r.image_usage == IMAGE_USAGE_COLOR_ATTACHMENT | IMAGE_USAGE_TRANSFER_SRC,
        r.present_mode == chosen_present_mode(gpu.caps.present_modes@),
        r.concurrent_sharing == (gpu.graphics_family_index != gpu.compute_family_index),
        r.concurrent_sharing ==> r.sharing_family_indices@ == seq![
            gpu.graphics_family_index,
            gpu.compute_family_index,
        ],
        !r.concurrent_sharing ==> r.sharing_family_indices@ == Seq::<usize>::empty(),
{
    let format = choose_surface_format(gpu);
    let present_mode = choose_present_mode(gpu);
    let concurrent = gpu.graphics_family_index != gpu.compute_family_index;
    let mut sharing_family_indices: Vec<usize> = Vec::new();
    if concurrent {
        sharing_family_indices.push(gpu.graphics_family_index);
        sharing_family_indices.push(gpu.compute_family_index);
        proof {
            assert(sharing_family_indices@ =~= seq![
                gpu.graphics_family_index,
                gpu.compute_family_index,
            ]);
        }
    }
    SwapchainRequest {
        min_image_count: FRAME_COUNT,
        format,
        width,
        height,
        image_array_layers: 1,
        image_usage: IMAGE_USAGE_COLOR_ATTACHMENT | IMAGE_USAGE_TRANSFER_SRC,
        present_mode,
        concurrent_sharing: concurrent,
        sharing_family_indices,
    }
}

/// The live presentation chain: the images the compositor cycles through,
/// one view per image, and the size and settings they were created with.
/// `generation` counts rebuilds; a handle is valid only for the generation
/// it was created under.
pub struct Swapchain {
    pub images: Vec<u64>,
    pub views: Vec<u64>,
    pub width: u32,
    pub height: u32,
    pub format: SurfaceFormat,
    pub present_mode: u32,
    pub generation: Ghost<nat>,
}

impl Swapchain {
    pub open spec fn wf(self) -> bool {
        &&& self.images@.len() == FRAME_COUNT
        &&& self.views@.len() == FRAME_COUNT
    }

    /// A handle stamp is current exactly for the chain's generation.
    pub open spec fn handle_valid(self, stamped: nat) -> bool {
        stamped == self.generation@
    }

    /// Wraps the images the driver returned for a new chain and the views
    /// made for them, one per image.
    pub fn create(request: &SwapchainRequest, images: Vec<u64>, views: Vec<u64>) -> (chain:
        Swapchain)
        requires
            images@.len() == FRAME_COUNT,
            views@.len() == FRAME_COUNT,
        ensures
            chain.wf(),
            chain.images@ == images@,
            chain.views@ == views@,
            chain.width == request.width,
            chain.height == request.height,
            chain.format == request.format,
            chain.present_mode == request.present_mode,
            chain.generation@ == 0,
    {
        Swapchain {
            images,
            views,
            width: request.width,
            height: request.height,
            format: request.format,
            present_mode: request.present_mode,
            generation: Ghost(0),
        }
    }

    /// Tears the chain down: every view is destroyed first, then the chain
    /// object itself, as the returned step list says.
    pub fn destroy(self) -> (steps: Vec<TeardownStep>)
        requires
            self.wf(),
        ensures
            steps@ == chain_teardown_steps(),
    {
        let mut steps: Vec<TeardownStep> = Vec::new();
        let n = self.views.len();
        for i in 0..n
            invariant
                n == FRAME_COUNT,
                steps@.len() == i,
                forall|j: int| 0 <= j < i ==> steps@[j] == TeardownStep::DestroyImageView,
        {
            steps.push(TeardownStep::DestroyImageView);
        }
        steps.push(TeardownStep::DestroyChain);
        proof {
            assert(steps@ =~= chain_teardown_steps());
        }
        steps
    }

    /// Replaces the chain's images and views after a rebuild at a new size.
    /// The counts are again exactly `FRAME_COUNT`, the size is the new one,
    /// format and mode are kept, and every handle of an earlier generation
    /// stops being valid.
    pub fn rebuild(&mut self, width: u32, height: u32, images: Vec<u64>, views: Vec<u64>)
        requires
            old(self).wf(),
            images@.len() == FRAME_COUNT,
            views@.len() == FRAME_COUNT,
        ensures
            final(self).wf(),
            final(self).images@ == images@,
            final(self).views@ == views@,
            final(self).width == width,
            final(self).height == height,
            final(self).format == old(self).format,
            final(self).present_mode == old(self).present_mode,
            final(self).generation@ == old(self).generation@ + 1,
    {
        self.images = images;
        self.views = views;
        self.width = width;
        self.height = height;
        proof {
            self.generation = Ghost(self.generation@ + 1);
        }
    }
}

/// The order a chain teardown takes: all views, then the chain.
pub open spec fn chain_teardown_steps() -> Seq<TeardownStep> {
    seq![
        TeardownStep::DestroyImageView,
        TeardownStep::DestroyImageView,
        TeardownStep::DestroyImageView,
        TeardownStep::DestroyChain,
    ]
}

/// One teardown action of the chain.
#[derive(Clone, Copy, PartialEq, Eq, Structural, Debug)]
pub enum TeardownStep {
    DestroyImageView,
    DestroyChain,
}

/// A rebuild invalidates every handle of the chain it replaced: whatever
/// generation a handle was stamped with before the rebuild, it is not the
/// rebuilt chain's generation.
pub proof fn lemma_rebuild_invalidates(pre: Swapchain, post: Swapchain, stamped: nat)
    requires
        post.generation@ == pre.generation@ + 1,
        pre.handle_valid(stamped),
    ensures
        !post.handle_valid(stamped),
{
}

} // verus!
