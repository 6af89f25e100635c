//! Switching between the window's framebuffer and an offscreen one, without
//! issuing a binding call that would not change anything.
use vstd::prelude::*;
use crate::command::{RenderCommand, TextureFormat};

verus! {

/// The colour and depth textures of an offscreen render target.
#[derive(Debug)]
pub struct OffscreenBuffers {
    pub texture: u32,
    pub depth: u32,
}

/// The target of every rendering call.
#[derive(Debug)]
pub enum RenderTarget {
    /// The screen (the window's framebuffer).
    Screen,
    /// An offscreen colour and depth buffer pair.
    Offscreen(OffscreenBuffers),
}

/// What the manager records as bound: the framebuffer, its colour and depth
/// attachments, and the handle of its own offscreen framebuffer.
pub struct Bindings {
    pub curr_fbo: u32,
    pub curr_color: u32,
    pub curr_depth: u32,
    pub fbo: u32,
}

/// The binding call for `fbo`, unless it is bound already.
pub open spec fn bind_calls(curr: u32, fbo: u32) -> Seq<RenderCommand> {
    if curr != fbo {
        seq![RenderCommand::BindFramebuffer(fbo)]
    } else {
        seq![]
    }
}

/// The calls that selecting `t` issues from the bindings `b`.
pub open spec fn select_calls(b: Bindings, t: RenderTarget) -> Seq<RenderCommand> {
    match t {
        RenderTarget::Screen => bind_calls(b.curr_fbo, 0),
        RenderTarget::Offscreen(o) => {
            bind_calls(b.curr_fbo, b.fbo)
                + (if b.curr_color != o.texture {
                seq![RenderCommand::AttachColor(o.texture)]
            } else {
                seq![]
            }) + (if b.curr_depth != o.depth {
                seq![RenderCommand::AttachDepth(o.depth)]
            } else {
                seq![]
            })
        },
    }
}

/// The bindings after selecting `t` from `b`.
pub open spec fn after_select(b: Bindings, t: RenderTarget) -> Bindings {
    match t {
        RenderTarget::Screen => Bindings { curr_fbo: 0, curr_color: 0, curr_depth: 0, fbo: b.fbo },
        RenderTarget::Offscreen(o) => Bindings {
            curr_fbo: b.fbo,
            curr_color: o.texture,
            curr_depth: o.depth,
            fbo: b.fbo,
        },
    }
}

/// The calls that resizing `t` to `w` by `h` issues.
pub open spec fn resize_calls(t: RenderTarget, w: i32, h: i32) -> Seq<RenderCommand> {
    match t {
        RenderTarget::Screen => seq![RenderCommand::Viewport(w, h)],
        RenderTarget::Offscreen(o) => seq![
            RenderCommand::AllocTexture { handle: o.texture, format: TextureFormat::Color, width: w, height: h },
            RenderCommand::AllocTexture { handle: o.depth, format: TextureFormat::Depth, width: w, height: h },
        ],
    }
}

impl RenderTarget {
    /// The handle of the colour texture (0 for the screen).
    pub open spec fn spec_texture_id(&self) -> u32 {
        match self {
            RenderTarget::Screen => 0,
            RenderTarget::Offscreen(o) => o.texture,
        }
    }

    /// The handle of the depth texture (0 for the screen).
    pub open spec fn spec_depth_id(&self) -> u32 {
        match self {
            RenderTarget::Screen => 0,
            RenderTarget::Offscreen(o) => o.depth,
        }
    }

    /// Returns the handle of the offscreen colour texture, or 0 for the screen.
    pub fn texture_id(&self) -> (r: u32)
        ensures
            r == self.spec_texture_id(),
    {
        match self {
            RenderTarget::Screen => 0,
            RenderTarget::Offscreen(o) => o.texture,
        }
    }

    /// Returns the handle of the offscreen depth texture, or 0 for the screen.
    pub fn depth_id(&self) -> (r: u32)
        ensures
            r == self.spec_depth_id(),
    {
        match self {
            RenderTarget::Screen => 0,
            RenderTarget::Offscreen(o) => o.depth,
        }
    }

    /// Resizes this render target: the viewport for the screen; for an offscreen
    /// target, new storage for both textures under the same handles.
    pub fn resize(&mut self, w: i32, h: i32) -> (r: Vec<RenderCommand>)
        ensures
            *final(self) == *old(self),
            r@ == resize_calls(*old(self), w, h),
    {
        match self {
            RenderTarget::Screen => vec![RenderCommand::Viewport(w, h)],
            RenderTarget::Offscreen(o) => vec![
                RenderCommand::AllocTexture { handle: o.texture, format: TextureFormat::Color, width: w, height: h },
                RenderCommand::AllocTexture { handle: o.depth, format: TextureFormat::Depth, width: w, height: h },
            ],
        }
    }

    /// The calls that free this target's textures; none for the screen.
    pub fn release(self) -> (r: Vec<RenderCommand>)
        ensures
            r@ == match self {
                RenderTarget::Screen => seq![],
                RenderTarget::Offscreen(o) => seq![
                    RenderCommand::DeleteTexture(o.texture),
                    RenderCommand::DeleteTexture(o.depth),
                ],
            },
    {
        match self {
            RenderTarget::Screen => Vec::new(),
            RenderTarget::Offscreen(o) => vec![
                RenderCommand::DeleteTexture(o.texture),
                RenderCommand::DeleteTexture(o.depth),
            ],
        }
    }
}

/// Tracks which framebuffer and attachments are bound, to switch between the
/// screen and one offscreen framebuffer.
pub struct FramebuffersManager {
    curr_fbo: u32,
    curr_color: u32,
    curr_depth: u32,
    fbo: u32,
}

impl View for FramebuffersManager {
    type V = Bindings;

    closed spec fn view(&self) -> Bindings {
        Bindings {
            curr_fbo: self.curr_fbo,
            curr_color: self.curr_color,
            curr_depth: self.curr_depth,
            fbo: self.fbo,
        }
    }
}

impl FramebuffersManager {
    /// Creates a manager for the offscreen framebuffer `fbo`, with the screen
    /// bound and nothing attached.
    pub fn new(fbo: u32) -> (r: FramebuffersManager)
        ensures
            r@ == (Bindings { curr_fbo: 0, curr_color: 0, curr_depth: 0, fbo }),
    {
        FramebuffersManager { curr_fbo: 0, curr_color: 0, curr_depth: 0, fbo }
    }

    /// The offscreen target of the colour texture `texture` and the depth texture `depth`.
    pub open spec fn spec_offscreen(texture: u32, depth: u32) -> RenderTarget {
        RenderTarget::Offscreen(OffscreenBuffers { texture, depth })
    }

    /// The offscreen target made of the colour texture `texture` and the depth
    /// texture `depth`.
    pub fn new_render_target(texture: u32, depth: u32) -> (r: RenderTarget)
        ensures
            r == Self::spec_offscreen(texture, depth),
    {
        RenderTarget::Offscreen(OffscreenBuffers { texture, depth })
    }

    /// The render target of the screen.
    pub fn screen() -> (r: RenderTarget)
        ensures
            r == RenderTarget::Screen,
    {
        RenderTarget::Screen
    }

    /// Selects `target`, returning the binding calls that are actually needed.
    pub fn select(&mut self, target: &RenderTarget) -> (r: Vec<RenderCommand>)
        ensures
            r@ == select_calls(old(self)@, *target),
            final(self)@ == after_select(old(self)@, *target),
    {
        let mut calls: Vec<RenderCommand> = Vec::new();
        match target {
            RenderTarget::Screen => {
                self.do_select(0, &mut calls);
                self.curr_color = 0;
                self.curr_depth = 0;
            },
            RenderTarget::Offscreen(o) => {
                let fbo = self.fbo;
                self.do_select(fbo, &mut calls);
                if self.curr_color != o.texture {
                    calls.push(RenderCommand::AttachColor(o.texture));
                    self.curr_color = o.texture;
                }
                if self.curr_depth != o.depth {
                    calls.push(RenderCommand::AttachDepth(o.depth));
                    self.curr_depth = o.depth;
                }
            },
        }
        proof {
            assert(calls@ =~= select_calls(old(self)@, *target));
        }
        calls
    }

    fn do_select(&mut self, fbo: u32, calls: &mut Vec<RenderCommand>)
        ensures
            final(calls)@ == old(calls)@ + bind_calls(old(self).curr_fbo, fbo),
            final(self).curr_fbo == fbo,
            final(self).curr_color == old(self).curr_color,
            final(self).curr_depth == old(self).curr_depth,
            final(self).fbo == old(self).fbo,
    {
        if self.curr_fbo != fbo {
            calls.push(RenderCommand::BindFramebuffer(fbo));
            self.curr_fbo = fbo;
        }
        proof {
            assert(calls@ =~= old(calls)@ + bind_calls(old(self).curr_fbo, fbo));
        }
    }

    /// The calls that tear the manager down: the screen is bound back first,
    /// then the offscreen framebuffer is deleted.
    pub fn release(self) -> (r: Vec<RenderCommand>)
        ensures
            r@ == seq![RenderCommand::BindFramebuffer(0), RenderCommand::DeleteFramebuffer(self@.fbo)],
    {
        vec![RenderCommand::BindFramebuffer(0), RenderCommand::DeleteFramebuffer(self.fbo)]
    }
}

/// Selecting the same target twice issues its binding calls at most once: the
/// second selection issues none and leaves the bindings as they are.
pub proof fn lemma_select_idempotent(b: Bindings, t: RenderTarget)
    ensures
        select_calls(after_select(b, t), t) == Seq::<RenderCommand>::empty(),
        after_select(after_select(b, t), t) == after_select(b, t),
{
    match t {
        RenderTarget::Screen => {},
        RenderTarget::Offscreen(o) => {
            assert(select_calls(after_select(b, t), t) =~= Seq::<RenderCommand>::empty());
        },
    }
}

} // verus!
