//! Render targets and the framebuffer selection state machine.
//!
//! Output goes to the screen or to an offscreen color texture with a
//! depth attachment.  The manager keeps one framebuffer object and
//! binds it only on an actual switch: selecting the target already
//! active touches nothing.

use vstd::prelude::*;
use crate::context::{sat64, RenderContext};

verus! {

/// The depth attachment of an offscreen target.
#[derive(Clone, Copy, PartialEq, Eq, Structural, Debug)]
pub enum DepthAttachment {
    /// A depth texture, readable afterwards.
    Texture(u64),
    /// A plain renderbuffer.
    Renderbuffer(u64),
}

/// Where a pass draws to.
#[derive(Clone, Copy, PartialEq, Eq, Structural, Debug)]
pub enum RenderTarget {
    /// The window's own surface.
    Screen,
    /// An offscreen color texture with its depth attachment.
    Offscreen {
        /// The color texture drawn into.
        texture: u64,
        /// The depth attachment.
        depth: DepthAttachment,
        /// The pixel width of the color storage.
        width: u32,
        /// The pixel height of the color storage.
        height: u32,
    },
}

impl RenderTarget {
    /// The color texture of an offscreen target.
    pub fn texture_id(&self) -> (r: Option<u64>)
        ensures
            *self is Screen ==> r is None,
            self matches RenderTarget::Offscreen { texture, .. } ==> r == Some(*texture),
    {
        match self {
            RenderTarget::Screen => None,
            RenderTarget::Offscreen { texture, .. } => Some(*texture),
        }
    }

    /// Resizes the target's output region: the screen target adjusts
    /// the context viewport, an offscreen target reallocates its color
    /// and depth storage at the new size.
    pub fn resize(&mut self, w: u32, h: u32, ctxt: &mut RenderContext)
        ensures
            *old(self) is Screen ==> *final(self) == *old(self) && *final(ctxt) == (RenderContext {
                viewport: (w, h),
                ..*old(ctxt)
            }),
            *old(self) matches RenderTarget::Offscreen { texture, depth, .. } ==> *final(self) == (
            RenderTarget::Offscreen { texture, depth, width: w, height: h }) && *final(ctxt)
                == *old(ctxt),
    {
        match self {
            RenderTarget::Screen => {
                ctxt.viewport = (w, h);
            },
            RenderTarget::Offscreen { width, height, .. } => {
                *width = w;
                *height = h;
            },
        }
    }

    /// The depth attachment of an offscreen target.
    pub fn depth_id(&self) -> (r: Option<DepthAttachment>)
        ensures
            *self is Screen ==> r is None,
            self matches RenderTarget::Offscreen { depth, .. } ==> r == Some(*depth),
    {
        match self {
            RenderTarget::Screen => None,
            RenderTarget::Offscreen { depth, .. } => Some(*depth),
        }
    }
}

/// Owns the one framebuffer object and tracks which side is bound.
pub struct FramebufferManager {
    /// Whether the screen is the bound output.
    pub fbo_onscreen: bool,
    /// The framebuffer object used for offscreen output.
    pub fbo: u64,
}

impl FramebufferManager {
    /// A manager bound to the screen.
    pub fn new(ctxt: &mut RenderContext) -> (m: FramebufferManager)
        ensures
            m.fbo_onscreen,
            final(ctxt).bound_framebuffer is None,
            final(ctxt).draws == old(ctxt).draws,
    {
        let fbo = ctxt.fresh_id();
        ctxt.bound_framebuffer = None;
        FramebufferManager { fbo_onscreen: true, fbo }
    }

    /// The screen as a target.
    pub fn screen() -> (r: RenderTarget)
        ensures
            r is Screen,
    {
        RenderTarget::Screen
    }

    /// An offscreen target: a fresh color texture and a fresh depth
    /// attachment, a texture when requested and a renderbuffer
    /// otherwise.
    pub fn new_render_target(
        width: usize,
        height: usize,
        create_depth_texture: bool,
        ctxt: &mut RenderContext,
    ) -> (r: RenderTarget)
        ensures
            r is Offscreen,
            (r matches RenderTarget::Offscreen { depth, .. } ==> (depth is Texture)
                == create_depth_texture),
            final(ctxt).draws == old(ctxt).draws,
    {
        let texture = ctxt.fresh_id();
        let w = if width > u32::MAX as usize {
            u32::MAX
        } else {
            width as u32
        };
        let h = if height > u32::MAX as usize {
            u32::MAX
        } else {
            height as u32
        };
        if create_depth_texture {
            let d = ctxt.fresh_id();
            RenderTarget::Offscreen {
                texture,
                depth: DepthAttachment::Texture(d),
                width: w,
                height: h,
            }
        } else {
            let d = ctxt.fresh_id();
            RenderTarget::Offscreen {
                texture,
                depth: DepthAttachment::Renderbuffer(d),
                width: w,
                height: h,
            }
        }
    }

    /// Binds the output for `target`.  Switching to the side already
    /// bound leaves the backend untouched.
    pub fn select(&mut self, target: &RenderTarget, ctxt: &mut RenderContext)
        ensures
            final(self).fbo == old(self).fbo,
            final(self).fbo_onscreen == (*target is Screen),
            *target is Screen && old(self).fbo_onscreen ==> *final(ctxt) == *old(ctxt)
                && *final(self) == *old(self),
            *target is Screen && !old(self).fbo_onscreen ==> *final(ctxt) == (RenderContext {
                bound_framebuffer: None,
                ..*old(ctxt)
            }),
            *target is Offscreen && !old(self).fbo_onscreen ==> *final(ctxt) == *old(ctxt),
            *target is Offscreen && old(self).fbo_onscreen ==> *final(ctxt) == (RenderContext {
                bound_framebuffer: Some(old(self).fbo),
                ..*old(ctxt)
            }),
    {
        match target {
            RenderTarget::Screen => {
                if !self.fbo_onscreen {
                    ctxt.bound_framebuffer = None;
                    self.fbo_onscreen = true;
                }
            },
            RenderTarget::Offscreen { .. } => {
                if self.fbo_onscreen {
                    ctxt.bound_framebuffer = Some(self.fbo);
                    self.fbo_onscreen = false;
                }
            },
        }
    }
}

} // verus!
