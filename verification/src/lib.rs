//! Core logic of a GPU rendering backend: physical-device inventory and
//! ranking, surface format and present mode selection, the presentable-image
//! chain lifecycle, the per-frame synchronization state machine, GPU memory
//! bookkeeping, and the engine's texture container format.
//!
//! Everything that talks to the graphics driver itself lives outside this
//! library; the library owns the decisions and the records those calls are
//! made from, and states them in contracts.

use vstd::prelude::*;

pub mod context;
pub mod descriptor;
pub mod device;
pub mod dirs;
pub mod frame;
pub mod memory;
pub mod swapchain;
pub mod texture;
pub mod window;

verus! {

/// Number of frames that may be in flight at once; also the number of
/// presentable images, frame slots, fences and semaphore pairs.
pub const FRAME_COUNT: usize = 3;

/// Size in bytes of one frame slot's uniform data: three 4-by-4 matrices of
/// 8-byte entries (model, view, projection).
pub const UNIFORM_BUFFER_SIZE: usize = 384;

/// Which rendering backend drives the engine.
#[derive(Clone, Copy, PartialEq, Eq, Structural, Debug)]
pub enum RenderApi {
    Unset,
    Vulkan,
    DirectX,
}

impl RenderApi {
    /// The backend's user-facing name; the placeholder backend has none.
    pub fn label(&self) -> (r: Option<&'static str>)
        ensures
            match *self {
                RenderApi::Unset => r is None,
                RenderApi::Vulkan => r matches Some(s) && s@ == "Vulkan"@,
                RenderApi::DirectX => r matches Some(s) && s@ == "DirectX"@,
            },
    {
        match self {
            RenderApi::Unset => None,
            RenderApi::Vulkan => Some("Vulkan"),
            RenderApi::DirectX => Some("DirectX"),
        }
    }
}

/// What the engine is started with.
#[derive(Clone, Debug)]
pub struct Args {
    /// The game directory to load from.
    pub game: String,
    /// Spin until a debugger attaches before initializing.
    pub wait_for_debugger: bool,
    /// The rendering backend to use.
    pub render_api: RenderApi,
}

} // verus!
