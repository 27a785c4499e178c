//! Which renderer draws an output, and which surface shows it.

use crate::data::{SurfaceData, SurfaceView, UdevData, UdevView};
use crate::node::{DrmNode, UdevOutputId};
use vstd::prelude::*;

verus! {

/// The renderer to be taken from the GPU manager.
#[derive(Clone, Copy, Debug, PartialEq, Eq, Hash, Structural)]
pub enum RendererChoice {
    /// One node both renders and shows the result.
    Single(DrmNode),
    /// `render` renders, and the result is copied to `target` in `format`.
    Copying { render: DrmNode, target: DrmNode, format: u32 },
}

impl UdevView {
    /// Whether `id` names a surface with a DRM output that shows `output`.
    pub open spec fn shows(self, id: UdevOutputId, output: u64) -> bool {
        self.has_drm_output(id) && self.surface(id).output == output
    }

    /// The renderer for a surface with a DRM output: the primary GPU alone
    /// where the surface is rendered there, and otherwise the primary GPU with
    /// a copy to the node of the surface.
    pub open spec fn renderer_for_surface(self, surface: SurfaceView) -> RendererChoice {
        match surface.render_node {
            Some(target) if target != self.primary_gpu => RendererChoice::Copying {
                render: self.primary_gpu,
                target,
                format: surface.drm_output->0,
            },
            _ => RendererChoice::Single(self.primary_gpu),
        }
    }
}

impl UdevData {
    /// Picks the surface whose buffers are to be reset, given where the output
    /// is driven: that surface, if it exists and has a DRM output.
    pub fn reset_buffers(&self, output: Option<UdevOutputId>) -> (reset: Option<UdevOutputId>)
        ensures
            reset == (if output is Some && self@.has_drm_output(output->0) {
                output
            } else {
                None
            }),
    {
        match output {
            Some(id) => match self.surface(id) {
                Some(surface) => if surface.drm_output.is_some() {
                    Some(id)
                } else {
                    None
                },
                None => None,
            },
            None => None,
        }
    }

    /// Picks the node whose renderer is meant by `node`: that node, or the
    /// primary GPU where none is named.
    pub fn renderer(&self, node: Option<DrmNode>) -> (picked: DrmNode)
        ensures
            picked == (match node {
                Some(named) => named,
                None => self@.primary_gpu,
            }),
    {
        match node {
            Some(named) => named,
            None => self.primary_gpu,
        }
    }

    /// Picks the renderer for `output`, by a surface with a DRM output that
    /// shows it. An output that no such surface shows is rendered on the
    /// primary GPU. Where several surfaces show it, it is one of theirs.
    pub fn renderer_for_output(&self, output: u64) -> (choice: RendererChoice)
        ensures
            (exists|id: UdevOutputId| #[trigger] self@.shows(id, output)) ==> exists|
                id: UdevOutputId,
            | #[trigger]
                self@.shows(id, output) && choice == self@.renderer_for_surface(self@.surface(id)),
            !(exists|id: UdevOutputId| #[trigger] self@.shows(id, output)) ==> choice
                == RendererChoice::Single(self@.primary_gpu),
            match choice {
                RendererChoice::Single(node) => node == self.primary_gpu,
                RendererChoice::Copying { render, target, .. } => render == self.primary_gpu
                    && target != self.primary_gpu,
            },
    {
        let ids: Vec<UdevOutputId> = self.drm_output_ids();
        let mut i: usize = 0;
        while i < ids.len()
            invariant
                i <= ids.len(),
                forall|id: UdevOutputId| #[trigger] ids@.contains(id) <==> self@.has_drm_output(id),
                forall|n: int| 0 <= n < i ==> !self@.shows(#[trigger] ids@[n], output),
            decreases ids.len() - i,
        {
            let id: UdevOutputId = ids[i];
            assert(ids@.contains(id));
            let surface: &SurfaceData = self.surface(id).unwrap();
            if surface.output == output {
                assert(self@.shows(id, output));
                let render_node: DrmNode = self.renderer(surface.render_node);
                if render_node == self.primary_gpu {
                    return RendererChoice::Single(render_node);
                }
                return RendererChoice::Copying {
                    render: self.primary_gpu,
                    target: render_node,
                    format: surface.drm_output.unwrap(),
                };
            }
            i = i + 1;
        }
        assert forall|id: UdevOutputId| !(#[trigger] self@.shows(id, output)) by {
            if self@.shows(id, output) {
                assert(ids@.contains(id));
            }
        }
        RendererChoice::Single(self.primary_gpu)
    }
}

/// An output that exactly one surface shows has exactly one possible renderer.
pub proof fn law_renderer_is_determined(
    data: UdevView,
    output: u64,
    shown_by: UdevOutputId,
    choice: RendererChoice,
)
    requires
        data.shows(shown_by, output),
        forall|id: UdevOutputId| #[trigger] data.shows(id, output) ==> id == shown_by,
        exists|id: UdevOutputId| #[trigger]
            data.shows(id, output) && choice == data.renderer_for_surface(data.surface(id)),
    ensures
        choice == data.renderer_for_surface(data.surface(shown_by)),
{
}

/// An output is shown by the surfaces that have a DRM output and name it, and by
/// no other.
pub proof fn law_an_output_is_shown_where_it_is_named(
    data: UdevView,
    dev_id: u64,
    crtc: u32,
    output: u64,
)
    ensures
        data.shows(UdevOutputId { device_id: DrmNode { dev_id }, crtc }, output) <==> {
            &&& data.backends.contains_key(dev_id)
            &&& data.backends[dev_id].surfaces.contains_key(crtc)
            &&& data.backends[dev_id].surfaces[crtc].drm_output is Some
            &&& data.backends[dev_id].surfaces[crtc].output == output
        },
{
}

/// The primary GPU always renders. A copy is made exactly where the surface has
/// a render node of its own that is not the primary GPU; it goes to that node,
/// in the format of the DRM output.
pub proof fn law_primary_gpu_renders(
    data: UdevView,
    surface: SurfaceView,
    target: DrmNode,
    format: u32,
)
    requires
        surface.drm_output == Some(format),
    ensures
        data.renderer_for_surface(surface) == (RendererChoice::Copying {
            render: data.primary_gpu,
            target,
            format,
        }) <==> surface.render_node == Some(target) && target.dev_id != data.primary_gpu.dev_id,
        surface.render_node is None || surface.render_node == Some(data.primary_gpu)
            ==> data.renderer_for_surface(surface) == RendererChoice::Single(data.primary_gpu),
        data.renderer_for_surface(surface) matches RendererChoice::Single(node) ==> node
            == data.primary_gpu,
{
    assert(target == data.primary_gpu <==> target.dev_id == data.primary_gpu.dev_id);
}

/// Which renderer draws a surface rests on the primary GPU and on the render node
/// and the format of that surface, and on nothing else that the backend holds.
pub proof fn law_renderer_rests_on_little(
    data: UdevView,
    other: UdevView,
    surface: SurfaceView,
    alike: SurfaceView,
)
    requires
        other.primary_gpu == data.primary_gpu,
        alike.render_node == surface.render_node,
        alike.drm_output == surface.drm_output,
    ensures
        other.renderer_for_surface(alike) == data.renderer_for_surface(surface),
{
}

} // verus!
