//! The renderer resource model: one complete, consistent resource set,
//! derived from exactly one artifact at exactly one viewport size, and
//! rebuilt whole on any resize - stale-sized resources never survive.

use vstd::prelude::*;
use crate::common::{params_bytes, params_bytes_spec, Params};
use crate::compiler::Artifact;

verus! {

/// The output image the shading pass renders into.
pub struct TextureView {
    pub width: u32,
    pub height: u32,
}

/// The derived resource set: target texture, uniform buffer contents, and
/// the stamp of the artifact the shading program was built from.
pub struct ResourceSet {
    pub texture: TextureView,
    pub uniform: Vec<u8>,
    pub artifact_stamp: u64,
}

/// A render pass about to be issued: which target size it draws at and
/// which artifact's program it binds.
pub struct DrawCall {
    pub width: u32,
    pub height: u32,
    pub artifact_stamp: u64,
}

/// The uniform buffer as freshly allocated: the parameter record's size,
/// all zeroes.
pub open spec fn zero_uniform() -> Seq<u8> {
    Seq::new(12, |i: int| 0u8)
}

/// Owns the active artifact and the resource set derived from it.
pub struct Renderer {
    artifact: Artifact,
    resources: ResourceSet,
}

impl Renderer {
    /// Width the resource set is sized for.
    pub closed spec fn width_spec(self) -> u32 {
        self.resources.texture.width
    }

    /// Height the resource set is sized for.
    pub closed spec fn height_spec(self) -> u32 {
        self.resources.texture.height
    }

    /// Stamp of the artifact the renderer holds.
    pub closed spec fn stamp_spec(self) -> u64 {
        self.artifact.stamp
    }

    /// Contents of the uniform buffer.
    pub closed spec fn uniform_spec(self) -> Seq<u8> {
        self.resources.uniform@
    }

    /// The one consistency invariant: the resource set derives from the
    /// held artifact, and the uniform buffer has the parameter record's
    /// size.
    pub closed spec fn wf(self) -> bool {
        self.resources.artifact_stamp == self.artifact.stamp && self.resources.uniform@.len() == 12
    }

    /// Build the full resource set from scratch for one artifact at one
    /// viewport size; the uniform buffer starts zeroed.
    pub fn new(width: u32, height: u32, artifact: Artifact) -> (r: Renderer)
        ensures
            r.wf(),
            r.width_spec() == width,
            r.height_spec() == height,
            r.stamp_spec() == artifact.stamp,
            r.uniform_spec() == zero_uniform(),
    {
        let mut uniform: Vec<u8> = Vec::new();
        let mut i: usize = 0;
        while i < 12
            invariant
                i <= 12,
                uniform@.len() == i,
                forall|j: int| 0 <= j < i ==> uniform@[j] == 0u8,
            decreases 12 - i,
        {
            uniform.push(0u8);
            i = i + 1;
        }
        proof {
            assert(uniform@ =~= zero_uniform());
        }
        let stamp: u64 = artifact.stamp;
        Renderer {
            artifact,
            resources: ResourceSet {
                texture: TextureView { width, height },
                uniform,
                artifact_stamp: stamp,
            },
        }
    }

    /// The output image of the shading pass, sized exactly for the
    /// current viewport.
    pub fn texture_view(&self) -> (t: &TextureView)
        ensures
            t.width == self.width_spec(),
            t.height == self.height_spec(),
    {
        &self.resources.texture
    }

    /// Rebuild the entire resource set at the new dimensions, reusing the
    /// same artifact. Nothing sized for the prior viewport survives; the
    /// uniform buffer comes back zeroed like any fresh allocation.
    pub fn resize(&mut self, width: u32, height: u32)
        ensures
            resize_post(*old(self), *final (self), width, height),
    {
        let mut uniform: Vec<u8> = Vec::new();
        let mut i: usize = 0;
        while i < 12
            invariant
                i <= 12,
                uniform@.len() == i,
                forall|j: int| 0 <= j < i ==> uniform@[j] == 0u8,
            decreases 12 - i,
        {
            uniform.push(0u8);
            i = i + 1;
        }
        proof {
            assert(uniform@ =~= zero_uniform());
        }
        self.resources = ResourceSet {
            texture: TextureView { width, height },
            uniform,
            artifact_stamp: self.artifact.stamp,
        };
    }

    /// Write the per-frame parameters into the uniform buffer, in the
    /// exact 12-byte layout the shading stage reads. Visible only to the
    /// subsequent draw; nothing else changes.
    pub fn update(&mut self, params: &Params)
        requires
            old(self).wf(),
        ensures
            final (self).wf(),
            final (self).uniform_spec() == params_bytes_spec(*params),
            final (self).width_spec() == old(self).width_spec(),
            final (self).height_spec() == old(self).height_spec(),
            final (self).stamp_spec() == old(self).stamp_spec(),
    {
        self.resources.uniform = params_bytes(params);
    }

    /// Issue the shading pass: the draw binds the current program and
    /// draws at the current target size - never at a stale one.
    pub fn render(&self) -> (d: DrawCall)
        requires
            self.wf(),
        ensures
            render_post(*self, d),
    {
        DrawCall {
            width: self.resources.texture.width,
            height: self.resources.texture.height,
            artifact_stamp: self.resources.artifact_stamp,
        }
    }
}

/// What `resize` guarantees: a well-formed set sized for the new
/// viewport, derived from the same artifact, its uniform buffer fresh.
pub open spec fn resize_post(before: Renderer, after: Renderer, width: u32, height: u32) -> bool {
    after.wf() && after.width_spec() == width && after.height_spec() == height
        && after.stamp_spec() == before.stamp_spec() && after.uniform_spec() == zero_uniform()
}

/// What `render` guarantees: the draw call uses the renderer's current
/// dimensions and artifact.
pub open spec fn render_post(r: Renderer, d: DrawCall) -> bool {
    d.width == r.width_spec() && d.height == r.height_spec() && d.artifact_stamp == r.stamp_spec()
}

/// A resize followed by a draw never references resources sized for the
/// prior viewport: every draw after `resize(width, height)` draws at
/// exactly `(width, height)`, with the artifact unchanged.
pub proof fn lemma_resize_then_render(
    before: Renderer,
    after: Renderer,
    width: u32,
    height: u32,
    d: DrawCall,
)
    requires
        resize_post(before, after, width, height),
        render_post(after, d),
    ensures
        d.width == width,
        d.height == height,
        d.artifact_stamp == before.stamp_spec(),
{
}

} // verus!
