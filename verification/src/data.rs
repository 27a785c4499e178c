//! What the backend knows of its devices and of the surfaces they drive.

use crate::config::UdevConfig;
use crate::lists::{key_list, lemma_push_contains};
use crate::node::{DrmNode, UdevOutputId};
use core::time::Duration;
use std::collections::hash_map::Entry;
use std::collections::{HashMap, VecDeque};
use vstd::prelude::*;

verus! {

broadcast use vstd::std_specs::hash::group_hash_axioms;

/// Whether pointer devices of this backend report relative motion.
pub const HAS_RELATIVE_MOTION: bool = true;

/// Whether touchpads of this backend report gestures.
pub const HAS_GESTURES: bool = true;

/// The kind of backend that drives the compositor.
#[derive(Clone, Copy, Debug, PartialEq, Eq, Hash, Structural)]
pub enum BackendType {
    Tty,
}

/// Rendering aids that can be switched on at run time, as a set of bits.
#[derive(Clone, Copy, Debug, PartialEq, Eq, Hash, Structural)]
pub struct DebugFlags {
    pub bits: u32,
}

impl DebugFlags {
    /// No flag at all.
    pub fn empty() -> (flags: DebugFlags)
        ensures
            flags == (DebugFlags { bits: 0 }),
    {
        DebugFlags { bits: 0 }
    }
}

/// Whether clients may currently lease connectors of a device.
#[derive(Clone, Copy, Debug, PartialEq, Eq, Hash, Structural)]
pub enum LeaseState {
    Running,
    Suspended,
}

/// One CRTC of a device, and the output shown on it.
pub struct SurfaceData {
    /// Names the output that the surface shows.
    pub output: u64,
    /// The pixel format of the DRM output, while there is one.
    pub drm_output: Option<u32>,
    /// The node that renders for the surface, if it is not the primary GPU.
    pub render_node: Option<DrmNode>,
    /// Whether clients are told the formats that suit this surface.
    pub dmabuf_feedback: bool,
    /// Names the timer of the next repaint.
    pub repaint_timeout: Option<u64>,
    /// How long the latest frames took to render, oldest first.
    pub render_durations: VecDeque<Duration>,
}

/// A device that has been brought up.
pub struct BackendData {
    /// The surfaces of the device, by CRTC.
    pub surfaces: HashMap<u32, SurfaceData>,
    /// Whether the device gave up its outputs because the session was paused.
    pub paused: bool,
    /// The connector leases held by clients.
    pub active_leases: Vec<u32>,
    /// The lease global, where the device can lease connectors at all.
    pub leasing_global: Option<LeaseState>,
}

/// The state of the udev backend.
pub struct UdevData {
    /// The GPU that composites, and on which buffers are imported.
    pub primary_gpu: DrmNode,
    /// The devices that have been brought up, by device number.
    pub backends: HashMap<u64, BackendData>,
    pub debug_flags: DebugFlags,
    /// Whether the dmabuf global has been announced.
    pub dmabuf_state: bool,
    /// Whether the explicit synchronisation global has been announced.
    pub syncobj_state: bool,
    pub disable_10bit_color: bool,
    pub disable_direct_scanout: bool,
}

/// What a [`SurfaceData`] holds.
pub ghost struct SurfaceView {
    pub output: u64,
    pub drm_output: Option<u32>,
    pub render_node: Option<DrmNode>,
    pub dmabuf_feedback: bool,
    pub repaint_timeout: Option<u64>,
    pub render_durations: Seq<Duration>,
}

/// What a [`BackendData`] holds.
#[verifier::ext_equal]
pub ghost struct BackendView {
    pub surfaces: Map<u32, SurfaceView>,
    pub paused: bool,
    pub active_leases: Seq<u32>,
    pub leasing_global: Option<LeaseState>,
}

/// What a [`UdevData`] holds.
#[verifier::ext_equal]
pub ghost struct UdevView {
    pub primary_gpu: DrmNode,
    pub backends: Map<u64, BackendView>,
    pub debug_flags: DebugFlags,
    pub dmabuf_state: bool,
    pub syncobj_state: bool,
    pub disable_10bit_color: bool,
    pub disable_direct_scanout: bool,
}

/// The views of the surfaces of a device.
pub open spec fn surface_views(surfaces: Map<u32, SurfaceData>) -> Map<u32, SurfaceView> {
    surfaces.map_values(|s: SurfaceData| s@)
}

/// The views of the devices of a backend.
pub open spec fn backend_views(backends: Map<u64, BackendData>) -> Map<u64, BackendView> {
    backends.map_values(|b: BackendData| b@)
}

/// To replace a surface is to replace its view.
pub broadcast proof fn lemma_surface_views_insert(
    surfaces: Map<u32, SurfaceData>,
    crtc: u32,
    surface: SurfaceData,
)
    ensures
        #[trigger] surface_views(surfaces.insert(crtc, surface)) == surface_views(surfaces).insert(
            crtc,
            surface@,
        ),
{
    assert(surface_views(surfaces.insert(crtc, surface)) =~= surface_views(surfaces).insert(
        crtc,
        surface@,
    ));
}

/// To replace a device is to replace its view.
pub broadcast proof fn lemma_backend_views_insert(
    backends: Map<u64, BackendData>,
    dev_id: u64,
    backend: BackendData,
)
    ensures
        #[trigger] backend_views(backends.insert(dev_id, backend)) == backend_views(
            backends,
        ).insert(dev_id, backend@),
{
    assert(backend_views(backends.insert(dev_id, backend)) =~= backend_views(backends).insert(
        dev_id,
        backend@,
    ));
}

impl View for SurfaceData {
    type V = SurfaceView;

    open spec fn view(&self) -> SurfaceView {
        SurfaceView {
            output: self.output,
            drm_output: self.drm_output,
            render_node: self.render_node,
            dmabuf_feedback: self.dmabuf_feedback,
            repaint_timeout: self.repaint_timeout,
            render_durations: self.render_durations@,
        }
    }
}

impl View for BackendData {
    type V = BackendView;

    open spec fn view(&self) -> BackendView {
        BackendView {
            surfaces: surface_views(self.surfaces@),
            paused: self.paused,
            active_leases: self.active_leases@,
            leasing_global: self.leasing_global,
        }
    }
}

impl View for UdevData {
    type V = UdevView;

    open spec fn view(&self) -> UdevView {
        UdevView {
            primary_gpu: self.primary_gpu,
            backends: backend_views(self.backends@),
            debug_flags: self.debug_flags,
            dmabuf_state: self.dmabuf_state,
            syncobj_state: self.syncobj_state,
            disable_10bit_color: self.disable_10bit_color,
            disable_direct_scanout: self.disable_direct_scanout,
        }
    }
}

impl UdevView {
    /// Whether `id` names a surface of a device that has been brought up.
    pub open spec fn has_surface(self, id: UdevOutputId) -> bool {
        &&& self.backends.contains_key(id.device_id.dev_id)
        &&& self.backends[id.device_id.dev_id].surfaces.contains_key(id.crtc)
    }

    /// The surface that `id` names.
    pub open spec fn surface(self, id: UdevOutputId) -> SurfaceView
        recommends
            self.has_surface(id),
    {
        self.backends[id.device_id.dev_id].surfaces[id.crtc]
    }

    /// Whether `id` names a surface that has a DRM output.
    pub open spec fn has_drm_output(self, id: UdevOutputId) -> bool {
        self.has_surface(id) && self.surface(id).drm_output is Some
    }

    /// The same backend, with other debug flags.
    pub open spec fn with_debug_flags(self, flags: DebugFlags) -> UdevView {
        UdevView { debug_flags: flags, ..self }
    }

    /// Whether the DRM output of the surface that `id` names has to be told of
    /// `flags`: there is one, and the flags are not in force already.
    pub open spec fn flags_affect(self, flags: DebugFlags, id: UdevOutputId) -> bool {
        flags != self.debug_flags && self.has_drm_output(id)
    }

    /// The same backend, with the surface that `id` names replaced.
    pub open spec fn with_surface(self, id: UdevOutputId, surface: SurfaceView) -> UdevView {
        let backend = self.backends[id.device_id.dev_id];
        UdevView {
            backends: self.backends.insert(
                id.device_id.dev_id,
                BackendView { surfaces: backend.surfaces.insert(id.crtc, surface), ..backend },
            ),
            ..self
        }
    }
}

/// Debug flags that have been set are those in force; to set them once more
/// concerns no surface and changes nothing.
pub proof fn law_debug_flags_are_kept(data: UdevView, flags: DebugFlags, id: UdevOutputId)
    ensures
        data.with_debug_flags(flags).debug_flags == flags,
        !data.with_debug_flags(flags).flags_affect(flags, id),
        data.with_debug_flags(flags).with_debug_flags(flags) == data.with_debug_flags(flags),
{
}

/// Debug flags that are switched and switched back leave everything as it was.
pub proof fn law_debug_flags_switch_back(data: UdevView, flags: DebugFlags)
    ensures
        data.with_debug_flags(flags).with_debug_flags(data.debug_flags) == data,
{
}

/// A surface that is replaced is found again, and no other surface changes.
pub proof fn law_replaced_surface(
    data: UdevView,
    id: UdevOutputId,
    surface: SurfaceView,
    other: UdevOutputId,
)
    requires
        data.has_surface(id),
    ensures
        ({
            let after = data.with_surface(id, surface);
            &&& after.has_surface(other) <==> data.has_surface(other)
            &&& after.surface(id) == surface
            &&& other != id && data.has_surface(other) ==> after.surface(other) == data.surface(
                other,
            )
        }),
{
}

/// To replace a surface by itself changes nothing.
pub proof fn lemma_same_surface(data: UdevView, id: UdevOutputId)
    requires
        data.has_surface(id),
    ensures
        data.with_surface(id, data.surface(id)) == data,
{
    let same = data.with_surface(id, data.surface(id));
    let dev_id = id.device_id.dev_id;
    assert(same.backends[dev_id].surfaces =~= data.backends[dev_id].surfaces);
    assert(same.backends =~= data.backends);
}

impl UdevData {
    /// The backend before any device has been brought up.
    pub fn new(config: &UdevConfig, primary_gpu: DrmNode) -> (data: UdevData)
        ensures
            data@ == (UdevView {
                primary_gpu,
                backends: Map::empty(),
                debug_flags: DebugFlags { bits: 0 },
                dmabuf_state: false,
                syncobj_state: false,
                disable_10bit_color: config.disable_10bit_color,
                disable_direct_scanout: config.disable_direct_scanout,
            }),
    {
        UdevData {
            primary_gpu,
            backends: HashMap::new(),
            debug_flags: DebugFlags::empty(),
            dmabuf_state: false,
            syncobj_state: false,
            disable_10bit_color: config.disable_10bit_color,
            disable_direct_scanout: config.disable_direct_scanout,
        }
    }

    /// Lists every surface of every device: each once, in no particular order.
    pub fn surface_ids(&self) -> (ids: Vec<UdevOutputId>)
        ensures
            ids@.no_duplicates(),
            forall|id: UdevOutputId| #[trigger] ids@.contains(id) <==> self@.has_surface(id),
    {
        let nodes: Vec<u64> = key_list(&self.backends);
        let mut ids: Vec<UdevOutputId> = Vec::new();
        let mut i: usize = 0;
        while i < nodes.len()
            invariant
                i <= nodes.len(),
                nodes@.no_duplicates(),
                forall|k: u64| #[trigger] nodes@.contains(k) <==> self.backends@.contains_key(k),
                ids@.no_duplicates(),
                forall|id: UdevOutputId| #[trigger]
                    ids@.contains(id) <==> self@.has_surface(id) && nodes@.take(
                        i as int,
                    ).contains(id.device_id.dev_id),
            decreases nodes.len() - i,
        {
            let dev_id: u64 = nodes[i];
            assert(nodes@.contains(dev_id));
            let backend: &BackendData = self.backends.get(&dev_id).unwrap();
            let crtcs: Vec<u32> = key_list(&backend.surfaces);
            let ghost done = ids@;
            let mut j: usize = 0;
            while j < crtcs.len()
                invariant
                    i < nodes.len(),
                    j <= crtcs.len(),
                    crtcs@.no_duplicates(),
                    forall|k: u32| #[trigger]
                        crtcs@.contains(k) <==> self@.backends[dev_id].surfaces.contains_key(k),
                    self@.backends.contains_key(dev_id),
                    forall|id: UdevOutputId| done.contains(id) ==> id.device_id.dev_id != dev_id,
                    ids@.no_duplicates(),
                    forall|id: UdevOutputId| #[trigger]
                        ids@.contains(id) <==> done.contains(id) || (id.device_id.dev_id == dev_id
                            && crtcs@.take(j as int).contains(id.crtc)),
                decreases crtcs.len() - j,
            {
                let crtc: u32 = crtcs[j];
                let id = UdevOutputId { device_id: DrmNode { dev_id }, crtc };
                let ghost before = ids@;
                ids.push(id);
                proof {
                    assert(crtcs@.take(j + 1) =~= crtcs@.take(j as int).push(crtc));
                    assert(!crtcs@.take(j as int).contains(crtc));
                    assert(!before.contains(id));
                    assert forall|other: UdevOutputId| #[trigger]
                        ids@.contains(other) <==> before.contains(other) || other == id by {
                        lemma_push_contains(before, id, other);
                    }
                    assert forall|c: u32| #[trigger]
                        crtcs@.take(j + 1).contains(c) <==> crtcs@.take(j as int).contains(c) || c
                            == crtc by {
                        lemma_push_contains(crtcs@.take(j as int), crtc, c);
                    }
                }
                j = j + 1;
            }
            proof {
                assert(crtcs@.take(crtcs.len() as int) =~= crtcs@);
                assert(nodes@.take(i + 1) =~= nodes@.take(i as int).push(dev_id));
                assert forall|k: u64| #[trigger]
                    nodes@.take(i + 1).contains(k) <==> nodes@.take(i as int).contains(k) || k
                        == dev_id by {
                    lemma_push_contains(nodes@.take(i as int), dev_id, k);
                }
            }
            i = i + 1;
        }
        assert(nodes@.take(nodes.len() as int) =~= nodes@);
        ids
    }

    /// Looks a surface up.
    pub fn surface(&self, id: UdevOutputId) -> (surface: Option<&SurfaceData>)
        ensures
            match surface {
                Some(s) => self@.has_surface(id) && s@ == self@.surface(id),
                None => !self@.has_surface(id),
            },
    {
        match self.backends.get(&id.device_id.dev_id) {
            Some(backend) => backend.surfaces.get(&id.crtc),
            None => None,
        }
    }

    /// Looks a device up, to change it.
    pub fn backend_mut(&mut self, dev_id: u64) -> (backend: Option<&mut BackendData>)
        ensures
            match backend {
                Some(b) => old(self)@.backends.contains_key(dev_id) && b@
                    == old(self)@.backends[dev_id] && final(self)@ == (UdevView {
                    backends: old(self)@.backends.insert(dev_id, final(b)@),
                    ..old(self)@
                }),
                None => !old(self)@.backends.contains_key(dev_id) && final(self)@ == old(self)@,
            },
    {
        broadcast use lemma_backend_views_insert;

        if !self.backends.contains_key(&dev_id) {
            return None;
        }
        match self.backends.entry(dev_id) {
            Entry::Occupied(backend) => Some(backend.into_mut()),
            Entry::Vacant(_) => None,
        }
    }

    /// Looks a surface up, to change it.
    pub fn surface_mut(&mut self, id: UdevOutputId) -> (surface: Option<&mut SurfaceData>)
        ensures
            match surface {
                Some(s) => old(self)@.has_surface(id) && s@ == old(self)@.surface(id)
                    && final(self)@ == old(self)@.with_surface(id, final(s)@),
                None => !old(self)@.has_surface(id) && final(self)@ == old(self)@,
            },
    {
        broadcast use {lemma_surface_views_insert, lemma_backend_views_insert};

        if self.surface(id).is_none() {
            return None;
        }
        match self.backends.entry(id.device_id.dev_id) {
            Entry::Occupied(backend) => match backend.into_mut().surfaces.entry(id.crtc) {
                Entry::Occupied(surface) => Some(surface.into_mut()),
                Entry::Vacant(_) => None,
            },
            Entry::Vacant(_) => None,
        }
    }

    /// Lists every surface that has a DRM output: each once, in no particular
    /// order.
    pub fn drm_output_ids(&self) -> (ids: Vec<UdevOutputId>)
        ensures
            ids@.no_duplicates(),
            forall|id: UdevOutputId| #[trigger] ids@.contains(id) <==> self@.has_drm_output(id),
    {
        let all: Vec<UdevOutputId> = self.surface_ids();
        let mut ids: Vec<UdevOutputId> = Vec::new();
        let mut i: usize = 0;
        while i < all.len()
            invariant
                i <= all.len(),
                all@.no_duplicates(),
                forall|id: UdevOutputId| #[trigger] all@.contains(id) <==> self@.has_surface(id),
                ids@.no_duplicates(),
                forall|id: UdevOutputId| #[trigger]
                    ids@.contains(id) <==> self@.has_drm_output(id) && all@.take(
                        i as int,
                    ).contains(id),
            decreases all.len() - i,
        {
            let id: UdevOutputId = all[i];
            assert(all@.contains(id));
            let ghost before = ids@;
            assert(!all@.take(i as int).contains(id));
            assert(!before.contains(id));
            let surface: &SurfaceData = self.surface(id).unwrap();
            if surface.drm_output.is_some() {
                ids.push(id);
            }
            proof {
                assert(all@.take(i + 1) =~= all@.take(i as int).push(id));
                assert forall|other: UdevOutputId| #[trigger]
                    ids@.contains(other) <==> self@.has_drm_output(other) && all@.take(
                        i + 1,
                    ).contains(other) by {
                    lemma_push_contains(before, id, other);
                    lemma_push_contains(all@.take(i as int), id, other);
                }
            }
            i = i + 1;
        }
        assert(all@.take(all.len() as int) =~= all@);
        ids
    }

    /// Switches the debug flags, and lists the surfaces whose DRM output has
    /// to be told: none where the flags stay as they are.
    pub fn set_debug_flags(&mut self, flags: DebugFlags) -> (affected: Vec<UdevOutputId>)
        ensures
            final(self)@ == old(self)@.with_debug_flags(flags),
            final(self).debug_flags == flags,
            affected@.no_duplicates(),
            forall|id: UdevOutputId| #[trigger]
                affected@.contains(id) <==> old(self)@.flags_affect(flags, id),
            old(self).debug_flags == flags ==> affected@.len() == 0,
    {
        if self.debug_flags != flags {
            self.debug_flags = flags;
            self.drm_output_ids()
        } else {
            Vec::new()
        }
    }

    /// The debug flags in force.
    pub fn debug_flags(&self) -> (flags: DebugFlags)
        ensures
            flags == self@.debug_flags,
    {
        self.debug_flags
    }

    /// The kind of this backend.
    pub fn backend_type(&self) -> (backend_type: BackendType)
        ensures
            backend_type == BackendType::Tty,
    {
        BackendType::Tty
    }
}

/// What the backend holds is what is seen of it: every field, of every device
/// and of every surface.
pub proof fn law_data_is_seen_whole(data: UdevData, dev_id: u64, crtc: u32)
    ensures
        data@.primary_gpu == data.primary_gpu,
        data@.debug_flags == data.debug_flags,
        data@.dmabuf_state == data.dmabuf_state,
        data@.syncobj_state == data.syncobj_state,
        data@.disable_10bit_color == data.disable_10bit_color,
        data@.disable_direct_scanout == data.disable_direct_scanout,
        data@.backends.contains_key(dev_id) <==> data.backends@.contains_key(dev_id),
        data.backends@.contains_key(dev_id) ==> {
            let device = data.backends@[dev_id];
            let seen = data@.backends[dev_id];
            &&& seen.paused == device.paused
            &&& seen.active_leases == device.active_leases@
            &&& seen.leasing_global == device.leasing_global
            &&& seen.surfaces.contains_key(crtc) <==> device.surfaces@.contains_key(crtc)
            &&& device.surfaces@.contains_key(crtc) ==> {
                let surface = device.surfaces@[crtc];
                &&& seen.surfaces[crtc].output == surface.output
                &&& seen.surfaces[crtc].drm_output == surface.drm_output
                &&& seen.surfaces[crtc].render_node == surface.render_node
                &&& seen.surfaces[crtc].dmabuf_feedback == surface.dmabuf_feedback
                &&& seen.surfaces[crtc].repaint_timeout == surface.repaint_timeout
                &&& seen.surfaces[crtc].render_durations == surface.render_durations@
            }
        },
{
}

/// A surface is found under the number of its device and under its CRTC on that
/// device, and nowhere else. It has a DRM output where it holds one.
pub proof fn law_surfaces_are_found_by_device_and_crtc(data: UdevView, id: UdevOutputId)
    ensures
        ({
            let dev_id = id.device_id.dev_id;
            let found = data.backends.dom().contains(dev_id)
                && data.backends[dev_id].surfaces.dom().contains(id.crtc);
            let surface = data.backends[dev_id].surfaces[id.crtc];
            &&& data.has_surface(id) <==> found
            &&& found ==> data.surface(id) == surface
            &&& data.has_drm_output(id) <==> found && surface.drm_output != None::<u32>
        }),
{
}

/// Switching debug flags changes the flags and nothing else. The surfaces that
/// are told are those with a DRM output, all of them or, where the flags stay as
/// they are, none.
pub proof fn law_debug_flags_reach_every_output(
    data: UdevView,
    flags: DebugFlags,
    dev_id: u64,
    crtc: u32,
)
    requires
        data.backends.contains_key(dev_id),
        data.backends[dev_id].surfaces.contains_key(crtc),
    ensures
        ({
            let id = UdevOutputId { device_id: DrmNode { dev_id }, crtc };
            let after = data.with_debug_flags(flags);
            &&& data.flags_affect(flags, id) <==> flags.bits != data.debug_flags.bits
                && data.backends[dev_id].surfaces[crtc].drm_output is Some
            &&& after.debug_flags == flags
            &&& after.primary_gpu == data.primary_gpu
            &&& after.backends == data.backends
            &&& after.dmabuf_state == data.dmabuf_state
            &&& after.syncobj_state == data.syncobj_state
            &&& after.disable_10bit_color == data.disable_10bit_color
            &&& after.disable_direct_scanout == data.disable_direct_scanout
        }),
{
    let id = UdevOutputId { device_id: DrmNode { dev_id }, crtc };
    assert(flags == data.debug_flags <==> flags.bits == data.debug_flags.bits);
}

/// No debug flags concern a surface that is not there.
pub proof fn law_debug_flags_reach_no_other(data: UdevView, flags: DebugFlags, id: UdevOutputId)
    ensures
        !data.backends.contains_key(id.device_id.dev_id) ==> !data.flags_affect(flags, id),
        !data.backends[id.device_id.dev_id].surfaces.contains_key(id.crtc) ==> !data.flags_affect(
            flags,
            id,
        ),
{
}

/// To replace a surface touches that one surface of that one device: the other
/// surfaces, the rest of the device, the other devices and the rest of the
/// backend stay as they were.
pub proof fn law_replacing_a_surface_touches_nothing_else(
    data: UdevView,
    id: UdevOutputId,
    surface: SurfaceView,
    dev_id: u64,
    crtc: u32,
)
    requires
        data.backends.contains_key(id.device_id.dev_id),
        data.backends[id.device_id.dev_id].surfaces.contains_key(id.crtc),
    ensures
        ({
            let after = data.with_surface(id, surface);
            let there = dev_id == id.device_id.dev_id;
            &&& after.primary_gpu == data.primary_gpu
            &&& after.debug_flags == data.debug_flags
            &&& after.dmabuf_state == data.dmabuf_state
            &&& after.syncobj_state == data.syncobj_state
            &&& after.disable_10bit_color == data.disable_10bit_color
            &&& after.disable_direct_scanout == data.disable_direct_scanout
            &&& after.backends.dom() == data.backends.dom()
            &&& data.backends.contains_key(dev_id) && !there ==> after.backends[dev_id]
                == data.backends[dev_id]
            &&& there ==> {
                &&& after.backends[dev_id].paused == data.backends[dev_id].paused
                &&& after.backends[dev_id].active_leases == data.backends[dev_id].active_leases
                &&& after.backends[dev_id].leasing_global == data.backends[dev_id].leasing_global
                &&& after.backends[dev_id].surfaces.dom() == data.backends[dev_id].surfaces.dom()
                &&& data.backends[dev_id].surfaces.contains_key(crtc)
                    ==> after.backends[dev_id].surfaces[crtc] == (if crtc == id.crtc {
                    surface
                } else {
                    data.backends[dev_id].surfaces[crtc]
                })
            }
        }),
{
    let after = data.with_surface(id, surface);
    let number = id.device_id.dev_id;
    assert(after.backends.dom() =~= data.backends.dom());
    assert(after.backends[number].surfaces.dom() =~= data.backends[number].surfaces.dom());
}

} // verus!
