//! The commands that the engine hands to the graphics backend.
use vstd::prelude::*;

verus! {

/// The two kinds of texture storage an offscreen target owns.
#[derive(Clone, Copy, Debug, PartialEq, Eq, Structural)]
pub enum TextureFormat {
    /// An RGBA colour attachment.
    Color,
    /// A depth attachment.
    Depth,
}

/// The shader programs the engine switches between.
#[derive(Clone, Copy, Debug, PartialEq, Eq, Structural)]
pub enum Program {
    /// The program that shades scene objects.
    Object,
    /// The program that draws line batches.
    Lines,
}

/// One call that the graphics backend performs. Handles are the backend's own
/// object names; sizes are in pixels.
#[derive(Clone, Copy, Debug, PartialEq, Eq, Structural)]
pub enum RenderCommand {
    /// Binds a framebuffer object (0 is the window's own framebuffer).
    BindFramebuffer(u32),
    /// Attaches a texture as colour buffer of the bound framebuffer.
    AttachColor(u32),
    /// Attaches a texture as depth buffer of the bound framebuffer.
    AttachDepth(u32),
    /// Sets the viewport to `(0, 0, width, height)`.
    Viewport(i32, i32),
    /// Sets the scissor box to `(0, 0, width, height)`.
    Scissor(i32, i32),
    /// Reallocates the storage of a texture, keeping its handle.
    AllocTexture { handle: u32, format: TextureFormat, width: i32, height: i32 },
    /// Deletes a framebuffer object.
    DeleteFramebuffer(u32),
    /// Deletes a texture.
    DeleteTexture(u32),
    /// Makes a shader program current.
    UseProgram(Program),
    /// Lets the camera prepare the given render pass.
    StartPass(usize),
    /// Uploads the camera's view-projection of the given pass to the current program.
    UploadView(usize),
    /// Clears colour and depth to the background colour.
    Clear,
    /// Renders the queued line primitives.
    DrawLines,
    /// Selects wireframe (`true`) or solid-fill (`false`) polygon mode.
    PolygonMode(bool),
    /// Uploads one object's uniforms and issues its indexed draw call.
    DrawObject { object: u64, mesh: u64, texture: u64 },
    /// Tells the camera that every pass of the frame is done.
    CompletePass,
    /// Runs the post-processing effect on the offscreen target's textures.
    PostProcess { color: u32, depth: u32 },
    /// Presents the frame (swaps buffers).
    Present,
}

} // verus!
