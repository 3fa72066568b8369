//! The swapchain configuration and the one way it is built.

use vstd::prelude::*;

verus! {

/// A window's physical size in pixels.
#[derive(Clone, Copy, PartialEq, Eq, Structural, Debug)]
pub struct Extent {
    pub width: u32,
    pub height: u32,
}

/// Color format of the swapchain images.
#[derive(Clone, Copy, PartialEq, Eq, Structural, Debug)]
pub enum TextureFormat {
    /// 8-bit BGRA, gamma-corrected; the only format this harness builds.
    Bgra8UnormSrgb,
    /// 8-bit BGRA, linear.
    Bgra8Unorm,
    /// 8-bit RGBA, gamma-corrected.
    Rgba8UnormSrgb,
}

/// What the swapchain images may be used for.
#[derive(Clone, Copy, PartialEq, Eq, Structural, Debug)]
pub enum TextureUsage {
    /// The image is the color target of a render pass.
    OutputAttachment,
    /// The image is sampled by a shader.
    Sampled,
}

/// How finished frames are queued for display.
#[derive(Clone, Copy, PartialEq, Eq, Structural, Debug)]
pub enum PresentMode {
    /// Present immediately, tearing allowed.
    Immediate,
    /// Low latency: queued frames replace one another, the newest wins.
    Mailbox,
    /// Strict vsync: frames wait in a queue.
    Fifo,
}

/// The color format every swapchain this harness builds uses.
pub const SWAPCHAIN_FORMAT: TextureFormat = TextureFormat::Bgra8UnormSrgb;

/// Everything a swapchain is created from. The harness holds exactly one live
/// configuration at a time; replacing it stands for destroying the previous
/// swapchain and creating a new one.
#[derive(Clone, Copy, PartialEq, Eq, Structural, Debug)]
pub struct SwapchainConfig {
    pub usage: TextureUsage,
    pub format: TextureFormat,
    pub width: u32,
    pub height: u32,
    pub present_mode: PresentMode,
}

/// The configuration built for a window of physical size `size`: fixed
/// gamma-corrected BGRA color format, output-attachment usage, low-latency
/// mailbox presentation, and the window's own dimensions.
pub open spec fn configure_spec(size: Extent) -> SwapchainConfig {
    SwapchainConfig {
        usage: TextureUsage::OutputAttachment,
        format: SWAPCHAIN_FORMAT,
        width: size.width,
        height: size.height,
        present_mode: PresentMode::Mailbox,
    }
}

/// Build the swapchain configuration for a window of physical size `size`.
/// Deterministic given identical inputs; always uses the fixed color format.
pub fn configure(size: Extent) -> (c: SwapchainConfig)
    ensures
        c == configure_spec(size),
{
    SwapchainConfig {
        usage: TextureUsage::OutputAttachment,
        format: SWAPCHAIN_FORMAT,
        width: size.width,
        height: size.height,
        present_mode: PresentMode::Mailbox,
    }
}

/// A rebuilt swapchain's dimensions always equal the window's physical size at
/// the time of the rebuild, and the configuration depends on that size alone:
/// rebuilding twice with an unchanged size yields configurations equal in all
/// fields.
pub proof fn lemma_rebuild_matches_window(size: Extent, other: Extent)
    ensures
        configure_spec(size).width == size.width,
        configure_spec(size).height == size.height,
        configure_spec(size).format == SWAPCHAIN_FORMAT,
        size.width == other.width && size.height == other.height
            ==> configure_spec(size) == configure_spec(other),
{
}

} // verus!
