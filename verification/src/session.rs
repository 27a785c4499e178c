//! What happens to the devices when the session is paused and resumed.
//!
//! Another virtual terminal may take the seat over. The session is then paused:
//! all devices give up their outputs. When it becomes active again, the devices
//! that went in the meantime are taken down, those that came are brought up,
//! and every surface is repainted. The first time that the session becomes
//! active, when no device has been brought up yet, all of them are.

use crate::data::{BackendData, BackendView, LeaseState, SurfaceView, UdevData, UdevView};
use crate::lists::{
    key_list, lemma_positions, lemma_positions_step, lemma_push_contains, positions,
};
use crate::node::{DrmNode, UdevOutputId};
use std::collections::HashSet;
use vstd::prelude::*;

verus! {

broadcast use vstd::std_specs::hash::group_hash_axioms;

impl BackendView {
    /// The device after a session switch.
    ///
    /// While the session is paused it shows nothing, no connector is leased,
    /// and none can be. Once the session is active it shows its surfaces, and
    /// connectors can be leased if the device knows leases at all.
    pub open spec fn switched(self, active: bool) -> BackendView {
        BackendView {
            paused: !active,
            active_leases: if active {
                self.active_leases
            } else {
                Seq::empty()
            },
            leasing_global: match (self.leasing_global, active) {
                (Some(_), true) => Some(LeaseState::Running),
                (Some(_), false) => Some(LeaseState::Suspended),
                (None, _) => None,
            },
            ..self
        }
    }
}

impl UdevView {
    /// The backend after a session switch.
    pub open spec fn switched(self, active: bool) -> UdevView {
        UdevView { backends: self.backends.map_values(|b: BackendView| b.switched(active)), ..self }
    }

    /// The same backend, with a timer for the next repaint of the surface that
    /// `id` names, where there is such a surface.
    pub open spec fn with_repaint_timeout(self, id: UdevOutputId, timer: u64) -> UdevView {
        if self.has_surface(id) {
            self.with_surface(
                id,
                SurfaceView { repaint_timeout: Some(timer), ..self.surface(id) },
            )
        } else {
            self
        }
    }

    /// The same backend, with a timer for each of several surfaces.
    pub open spec fn with_repaint_timeouts(
        self,
        ids: Seq<UdevOutputId>,
        timers: Seq<u64>,
    ) -> UdevView
        decreases ids.len(),
    {
        if ids.len() == 0 {
            self
        } else {
            self.with_repaint_timeouts(ids.drop_last(), timers.drop_last()).with_repaint_timeout(
                ids.last(),
                timers.last(),
            )
        }
    }
}

/// A device that the session switch has to be carried out on.
#[derive(Clone, Copy, Debug, PartialEq, Eq, Hash, Structural)]
pub struct SwitchedDevice {
    pub node: DrmNode,
    /// Whether there is a lease global to be suspended or resumed.
    pub has_leases: bool,
}

/// What has to be done when the session becomes active.
pub struct ActivatedDevices {
    /// The devices to be activated.
    pub devices: Vec<SwitchedDevice>,
    /// The surfaces to be repainted at once.
    pub repaints: Vec<UdevOutputId>,
}

/// Whether `ids` lists every surface of the backend once.
pub open spec fn lists_surfaces(ids: Seq<UdevOutputId>, data: UdevView) -> bool {
    &&& ids.no_duplicates()
    &&& forall|id: UdevOutputId| #[trigger] ids.contains(id) <==> data.has_surface(id)
}

/// Whether `devices` lists every device of the backend once.
pub open spec fn lists_devices(devices: Seq<SwitchedDevice>, data: UdevView) -> bool {
    &&& devices.no_duplicates()
    &&& forall|device: SwitchedDevice| #[trigger]
        devices.contains(device) <==> data.backends.contains_key(device.node.dev_id)
            && device.has_leases == (data.backends[device.node.dev_id].leasing_global is Some)
}

impl UdevData {
    /// Lists every device once, in no particular order.
    fn switched_devices(&self) -> (devices: Vec<SwitchedDevice>)
        ensures
            lists_devices(devices@, self@),
    {
        let ids: Vec<u64> = key_list(&self.backends);
        let mut devices: Vec<SwitchedDevice> = Vec::new();
        let mut i: usize = 0;
        while i < ids.len()
            invariant
                i <= ids.len(),
                ids@.no_duplicates(),
                forall|k: u64| #[trigger] ids@.contains(k) <==> self@.backends.contains_key(k),
                devices@.no_duplicates(),
                forall|device: SwitchedDevice| #[trigger]
                    devices@.contains(device) <==> ids@.take(i as int).contains(device.node.dev_id)
                        && device.has_leases == (
                    self@.backends[device.node.dev_id].leasing_global is Some),
            decreases ids.len() - i,
        {
            let dev_id: u64 = ids[i];
            assert(ids@.contains(dev_id));
            assert(!ids@.take(i as int).contains(dev_id));
            let backend: &BackendData = self.backends.get(&dev_id).unwrap();
            let device = SwitchedDevice {
                node: DrmNode { dev_id },
                has_leases: backend.leasing_global.is_some(),
            };
            let ghost before = devices@;
            assert(!before.contains(device));
            devices.push(device);
            proof {
                assert(ids@.take(i + 1) =~= ids@.take(i as int).push(dev_id));
                assert forall|other: SwitchedDevice| #[trigger]
                    devices@.contains(other) <==> ids@.take(i + 1).contains(other.node.dev_id)
                        && other.has_leases == (
                    self@.backends[other.node.dev_id].leasing_global is Some) by {
                    lemma_push_contains(before, device, other);
                    lemma_push_contains(ids@.take(i as int), dev_id, other.node.dev_id);
                }
            }
            i = i + 1;
        }
        assert(ids@.take(ids.len() as int) =~= ids@);
        devices
    }

    /// Switches every device.
    fn switch_devices(&mut self, active: bool)
        ensures
            final(self)@ == old(self)@.switched(active),
    {
        let ghost before = self@;
        let ids: Vec<u64> = key_list(&self.backends);
        let mut i: usize = 0;
        while i < ids.len()
            invariant
                i <= ids.len(),
                ids@.no_duplicates(),
                forall|k: u64| #[trigger] ids@.contains(k) <==> before.backends.contains_key(k),
                self@ == (UdevView { backends: self@.backends, ..before }),
                forall|k: u64| #[trigger]
                    self@.backends.contains_key(k) <==> before.backends.contains_key(k),
                forall|k: u64| #[trigger]
                    self@.backends.contains_key(k) ==> self@.backends[k] == (if ids@.take(
                        i as int,
                    ).contains(k) {
                        before.backends[k].switched(active)
                    } else {
                        before.backends[k]
                    }),
            decreases ids.len() - i,
        {
            let dev_id: u64 = ids[i];
            assert(ids@.contains(dev_id));
            assert(!ids@.take(i as int).contains(dev_id));
            match self.backend_mut(dev_id) {
                Some(backend) => {
                    backend.paused = !active;
                    if !active {
                        backend.active_leases.clear();
                    }
                    if backend.leasing_global.is_some() {
                        backend.leasing_global = Some(
                            if active {
                                LeaseState::Running
                            } else {
                                LeaseState::Suspended
                            },
                        );
                    }
                },
                None => {},
            }
            proof {
                assert(ids@.take(i + 1) =~= ids@.take(i as int).push(dev_id));
                assert forall|k: u64| #[trigger] self@.backends.contains_key(k) implies (
                ids@.take(i + 1).contains(k) <==> ids@.take(i as int).contains(k) || k
                    == dev_id) by {
                    lemma_push_contains(ids@.take(i as int), dev_id, k);
                }
            }
            i = i + 1;
        }
        proof {
            assert(ids@.take(ids.len() as int) =~= ids@);
            assert forall|k: u64| #[trigger] self@.backends.contains_key(k) implies
                self@.backends[k] == before.switched(active).backends[k] by {
                assert(ids@.contains(k));
            }
            assert(self@.backends =~= before.switched(active).backends);
        }
    }

    /// Pauses the session, and lists the devices that have to be paused.
    pub fn pause(&mut self) -> (devices: Vec<SwitchedDevice>)
        ensures
            final(self)@ == old(self)@.switched(false),
            lists_devices(devices@, old(self)@),
    {
        let devices: Vec<SwitchedDevice> = self.switched_devices();
        self.switch_devices(false);
        devices
    }

    /// Makes the session active, and lists the devices that have to be
    /// activated and the surfaces that are then to be repainted: all of them.
    pub fn activate(&mut self) -> (activated: ActivatedDevices)
        ensures
            final(self)@ == old(self)@.switched(true),
            lists_devices(activated.devices@, old(self)@),
            lists_surfaces(activated.repaints@, old(self)@),
    {
        let devices: Vec<SwitchedDevice> = self.switched_devices();
        let repaints: Vec<UdevOutputId> = self.surface_ids();
        self.switch_devices(true);
        ActivatedDevices { devices, repaints }
    }

    /// Notes the timer of the next repaint of a surface.
    pub fn set_repaint_timeout(&mut self, id: UdevOutputId, timer: u64)
        ensures
            final(self)@ == old(self)@.with_repaint_timeout(id, timer),
    {
        match self.surface_mut(id) {
            Some(surface) => {
                surface.repaint_timeout = Some(timer);
            },
            None => {},
        }
    }

    /// Lists the devices that are gone: those that have been brought up and
    /// whose number is not among the `present` ones. Each is listed once, in no
    /// particular order.
    pub fn stale_devices(&self, present: &Vec<u64>) -> (stale: Vec<DrmNode>)
        ensures
            lists_stale(stale@, self@, present@),
    {
        let mut current: HashSet<u64> = HashSet::new();
        let mut n: usize = 0;
        while n < present.len()
            invariant
                n <= present.len(),
                forall|k: u64| #[trigger]
                    current@.contains(k) <==> present@.take(n as int).contains(k),
            decreases present.len() - n,
        {
            let dev_id: u64 = present[n];
            let ghost before = current@;
            current.insert(dev_id);
            proof {
                assert(present@.take(n + 1) =~= present@.take(n as int).push(dev_id));
                assert forall|k: u64| #[trigger]
                    current@.contains(k) <==> present@.take(n + 1).contains(k) by {
                    lemma_push_contains(present@.take(n as int), dev_id, k);
                    assert(before.contains(k) <==> present@.take(n as int).contains(k));
                }
            }
            n = n + 1;
        }
        assert(present@.take(present.len() as int) =~= present@);
        let ids: Vec<u64> = key_list(&self.backends);
        let mut stale: Vec<DrmNode> = Vec::new();
        let mut i: usize = 0;
        while i < ids.len()
            invariant
                i <= ids.len(),
                ids@.no_duplicates(),
                forall|k: u64| #[trigger] ids@.contains(k) <==> self@.backends.contains_key(k),
                forall|k: u64| #[trigger] current@.contains(k) <==> present@.contains(k),
                stale@.no_duplicates(),
                forall|node: DrmNode| #[trigger]
                    stale@.contains(node) <==> ids@.take(i as int).contains(node.dev_id)
                        && !present@.contains(node.dev_id),
            decreases ids.len() - i,
        {
            let dev_id: u64 = ids[i];
            let node = DrmNode { dev_id };
            let ghost before = stale@;
            assert(!ids@.take(i as int).contains(dev_id));
            assert(!before.contains(node));
            if !current.contains(&dev_id) {
                stale.push(node);
            }
            proof {
                assert(current@.contains(dev_id) <==> present@.contains(dev_id));
                assert(ids@.take(i + 1) =~= ids@.take(i as int).push(dev_id));
                assert forall|other: DrmNode| #[trigger]
                    stale@.contains(other) <==> ids@.take(i + 1).contains(other.dev_id)
                        && !present@.contains(other.dev_id) by {
                    lemma_push_contains(before, node, other);
                    lemma_push_contains(ids@.take(i as int), dev_id, other.dev_id);
                }
            }
            i = i + 1;
        }
        assert(ids@.take(ids.len() as int) =~= ids@);
        stale
    }

    /// Lists the positions of the devices that came: those that are DRM nodes
    /// and have not been brought up. `nodes` holds the DRM node of each device
    /// that is present, where it is one.
    pub fn new_devices(&self, nodes: &Vec<Option<DrmNode>>) -> (fresh: Vec<usize>)
        ensures
            fresh@ == fresh_positions(self@, nodes@),
    {
        let ghost keep = |i: int| is_fresh(self@, nodes@[i]);
        let mut fresh: Vec<usize> = Vec::new();
        let mut i: usize = 0;
        proof {
            lemma_positions_step(0, keep);
        }
        while i < nodes.len()
            invariant
                i <= nodes.len(),
                keep == (|i: int| is_fresh(self@, nodes@[i])),
                fresh@ == positions(i as nat, keep),
            decreases nodes.len() - i,
        {
            let unknown: bool = match nodes[i] {
                Some(node) => !self.backends.contains_key(&node.dev_id),
                None => false,
            };
            if unknown {
                fresh.push(i);
            }
            proof {
                lemma_positions_step(i as nat, keep);
            }
            i = i + 1;
        }
        fresh
    }
}

/// Whether `stale` lists, once each, the devices of the backend that are not
/// among the `present` ones.
pub open spec fn lists_stale(stale: Seq<DrmNode>, data: UdevView, present: Seq<u64>) -> bool {
    &&& stale.no_duplicates()
    &&& forall|node: DrmNode| #[trigger]
        stale.contains(node) <==> data.backends.contains_key(node.dev_id) && !present.contains(
            node.dev_id,
        )
}

/// Whether a device is a DRM node that has not been brought up.
pub open spec fn is_fresh(data: UdevView, node: Option<DrmNode>) -> bool {
    node is Some && !data.backends.contains_key(node->0.dev_id)
}

/// The positions of the devices that have not been brought up, in ascending
/// order.
pub open spec fn fresh_positions(data: UdevView, nodes: Seq<Option<DrmNode>>) -> Seq<usize> {
    positions(nodes.len(), |i: int| is_fresh(data, nodes[i]))
}

/// A device that was paused and activated again has lost its leases and nothing
/// else: it shows the surfaces that it showed, and leases connectors if it
/// could.
pub proof fn law_pause_and_activate(data: UdevView, dev_id: u64)
    requires
        data.backends.contains_key(dev_id),
    ensures
        ({
            let before = data.backends[dev_id];
            let again = data.switched(false).switched(true);
            &&& again.backends.contains_key(dev_id)
            &&& again.backends[dev_id] == (BackendView {
                paused: false,
                active_leases: Seq::empty(),
                leasing_global: match before.leasing_global {
                    Some(_) => Some(LeaseState::Running),
                    None => None,
                },
                ..before
            })
        }),
{
}

/// Noting timers changes the timers of the named surfaces and nothing else.
proof fn lemma_repaint_timeouts(
    data: UdevView,
    ids: Seq<UdevOutputId>,
    timers: Seq<u64>,
    id: UdevOutputId,
)
    requires
        timers.len() == ids.len(),
        ids.no_duplicates(),
    ensures
        ({
            let after = data.with_repaint_timeouts(ids, timers);
            &&& after.has_surface(id) <==> data.has_surface(id)
            &&& data.has_surface(id) && !ids.contains(id) ==> after.surface(id) == data.surface(id)
            &&& forall|i: int|
                0 <= i < ids.len() && (#[trigger] ids[i]) == id && data.has_surface(id)
                    ==> after.surface(id) == (SurfaceView {
                    repaint_timeout: Some(timers[i]),
                    ..data.surface(id)
                })
        }),
    decreases ids.len(),
{
    if ids.len() > 0 {
        let earlier = ids.drop_last();
        lemma_repaint_timeouts(data, earlier, timers.drop_last(), id);
        lemma_push_contains(earlier, ids.last(), id);
        assert(earlier.push(ids.last()) =~= ids);
        assert(forall|i: int|
            0 <= i < earlier.len() ==> (#[trigger] ids[i]) == earlier[i] && timers[i]
                == timers.drop_last()[i]);
        if ids.last() == id {
            assert(!earlier.contains(id)) by {
                if earlier.contains(id) {
                    let i = choose|i: int| 0 <= i < earlier.len() && earlier[i] == id;
                    assert(ids[i] == ids[ids.len() - 1]);
                }
            }
        }
    }
}

/// Once the session is active and a timer has been noted for each surface that
/// was listed, every surface is due for a repaint, and shows what it showed.
pub proof fn law_every_surface_is_repainted(
    data: UdevView,
    ids: Seq<UdevOutputId>,
    timers: Seq<u64>,
    id: UdevOutputId,
)
    requires
        lists_surfaces(ids, data),
        timers.len() == ids.len(),
        data.has_surface(id),
    ensures
        ({
            let after = data.switched(true).with_repaint_timeouts(ids, timers);
            &&& after.has_surface(id)
            &&& exists|i: int|
                0 <= i < ids.len() && (#[trigger] ids[i]) == id && after.surface(id) == (
                SurfaceView { repaint_timeout: Some(timers[i]), ..data.surface(id) })
        }),
{
    assert(data.switched(true).has_surface(id));
    assert(data.switched(true).surface(id) == data.surface(id));
    lemma_repaint_timeouts(data.switched(true), ids, timers, id);
    assert(ids.contains(id));
    let i = choose|i: int| 0 <= i < ids.len() && ids[i] == id;
    assert(ids[i] == id);
}

/// Pausing a paused session, or activating an active one, changes nothing.
pub proof fn law_switch_twice(data: UdevView, active: bool)
    ensures
        data.switched(active).switched(active) == data.switched(active),
{
    assert(data.switched(active).switched(active).backends =~= data.switched(active).backends);
}

/// A session switch pauses or unpauses the device. It ends the leases where the
/// session is paused and keeps them where it becomes active, stops or restarts
/// leasing where the device has a lease global, and leaves the surfaces alone.
pub proof fn law_switched_device(device: BackendView, active: bool)
    ensures
        ({
            let after = device.switched(active);
            &&& after.paused != active
            &&& after.surfaces == device.surfaces
            &&& active ==> after.active_leases == device.active_leases
            &&& !active ==> after.active_leases.len() == 0
            &&& after.leasing_global is Some <==> device.leasing_global is Some
            &&& after.leasing_global == Some(LeaseState::Running) ==> active
            &&& after.leasing_global == Some(LeaseState::Suspended) ==> !active
        }),
{
}

/// A session switch reaches every device that has been brought up, and changes
/// nothing but the devices.
pub proof fn law_every_device_is_switched(data: UdevView, active: bool, dev_id: u64)
    ensures
        ({
            let after = data.switched(active);
            &&& after.backends.contains_key(dev_id) <==> data.backends.contains_key(dev_id)
            &&& data.backends.contains_key(dev_id) ==> after.backends[dev_id]
                == data.backends[dev_id].switched(active)
            &&& after.primary_gpu == data.primary_gpu
            &&& after.debug_flags == data.debug_flags
            &&& after.dmabuf_state == data.dmabuf_state
            &&& after.syncobj_state == data.syncobj_state
            &&& after.disable_10bit_color == data.disable_10bit_color
            &&& after.disable_direct_scanout == data.disable_direct_scanout
        }),
{
}

/// Every device that has been brought up is listed once, and listed as one with
/// leases exactly where it has a lease global at all, whether that is running or
/// suspended. No other device is listed.
pub proof fn law_lease_globals_are_listed(
    devices: Seq<SwitchedDevice>,
    data: UdevView,
    dev_id: u64,
    has_leases: bool,
)
    requires
        lists_devices(devices, data),
    ensures
        devices.contains(SwitchedDevice { node: DrmNode { dev_id }, has_leases }) <==> {
            &&& data.backends.contains_key(dev_id)
            &&& has_leases <==> data.backends[dev_id].leasing_global == Some(LeaseState::Running)
                || data.backends[dev_id].leasing_global == Some(LeaseState::Suspended)
        },
        forall|i: int, j: int|
            0 <= i < devices.len() && 0 <= j < devices.len() && (#[trigger] devices[i]).node
                == (#[trigger] devices[j]).node ==> i == j,
{
    let device = SwitchedDevice { node: DrmNode { dev_id }, has_leases };
    assert(devices.contains(device) <==> data.backends.contains_key(dev_id) && has_leases == (
    data.backends[dev_id].leasing_global is Some));
    assert(data.backends[dev_id].leasing_global is Some <==> data.backends[dev_id].leasing_global
        == Some(LeaseState::Running) || data.backends[dev_id].leasing_global == Some(
        LeaseState::Suspended,
    )) by {
        match data.backends[dev_id].leasing_global {
            Some(LeaseState::Running) => {},
            Some(LeaseState::Suspended) => {},
            None => {},
        }
    }
    assert forall|i: int, j: int|
        0 <= i < devices.len() && 0 <= j < devices.len() && (#[trigger] devices[i]).node
            == (#[trigger] devices[j]).node implies i == j by {
        assert(devices.contains(devices[i]));
        assert(devices.contains(devices[j]));
        assert(devices[i] == devices[j]);
    }
}

/// The devices that are listed when the session becomes active are those that
/// were listed when it was paused, each with or without leases as before: every
/// lease global that was suspended is resumed.
pub proof fn law_what_is_paused_is_activated(
    data: UdevView,
    paused: Seq<SwitchedDevice>,
    activated: Seq<SwitchedDevice>,
    device: SwitchedDevice,
)
    requires
        lists_devices(paused, data),
        lists_devices(activated, data.switched(false)),
    ensures
        paused.contains(device) <==> activated.contains(device),
{
    assert(paused.contains(device) <==> data.backends.contains_key(device.node.dev_id)
        && device.has_leases == (data.backends[device.node.dev_id].leasing_global is Some));
}

/// Every surface is listed once, and nothing else is.
pub proof fn law_surfaces_are_listed(
    ids: Seq<UdevOutputId>,
    data: UdevView,
    dev_id: u64,
    crtc: u32,
)
    requires
        lists_surfaces(ids, data),
    ensures
        ids.contains(UdevOutputId { device_id: DrmNode { dev_id }, crtc }) <==> {
            &&& data.backends.contains_key(dev_id)
            &&& data.backends[dev_id].surfaces.contains_key(crtc)
        },
        forall|i: int, j: int|
            0 <= i < j < ids.len() ==> (#[trigger] ids[i]) != (#[trigger] ids[j]),
{
    let id = UdevOutputId { device_id: DrmNode { dev_id }, crtc };
    assert(ids.contains(id) <==> data.has_surface(id));
}

/// A timer that is noted replaces the timer of its surface, and nothing else of
/// it; for a surface that is not there nothing is noted.
pub proof fn law_timer_is_noted_on_its_surface(data: UdevView, id: UdevOutputId, timer: u64)
    ensures
        ({
            let dev_id = id.device_id.dev_id;
            let found = data.backends.contains_key(dev_id)
                && data.backends[dev_id].surfaces.contains_key(id.crtc);
            let after = data.with_repaint_timeout(id, timer);
            &&& !found ==> after == data
            &&& found ==> after == data.with_surface(
                id,
                SurfaceView {
                    repaint_timeout: Some(timer),
                    ..data.backends[dev_id].surfaces[id.crtc]
                },
            )
        }),
{
}

/// A device is taken down exactly where it is known and its number is not among
/// those present, and it is taken down once.
pub proof fn law_stale_devices_are_those_gone(
    stale: Seq<DrmNode>,
    data: UdevView,
    present: Seq<u64>,
    dev_id: u64,
)
    requires
        lists_stale(stale, data, present),
    ensures
        stale.contains(DrmNode { dev_id }) <==> data.backends.contains_key(dev_id) && (forall|i: int|
            0 <= i < present.len() ==> (#[trigger] present[i]) != dev_id),
        forall|i: int, j: int|
            0 <= i < j < stale.len() ==> (#[trigger] stale[i]) != (#[trigger] stale[j]),
{
    let node = DrmNode { dev_id };
    assert(stale.contains(node) <==> data.backends.contains_key(dev_id) && !present.contains(
        dev_id,
    ));
}

/// A device is new exactly where it is a DRM node whose number is not known yet;
/// new devices are listed once each, in the order of the list.
pub proof fn law_new_devices_are_those_unknown(
    data: UdevView,
    nodes: Seq<Option<DrmNode>>,
    position: usize,
)
    requires
        nodes.len() <= usize::MAX,
    ensures
        fresh_positions(data, nodes).contains(position) <==> position < nodes.len() && (
        nodes[position as int] matches Some(node) && !data.backends.dom().contains(node.dev_id)),
        forall|a: int, b: int|
            0 <= a < b < fresh_positions(data, nodes).len() ==> (#[trigger] fresh_positions(
                data,
                nodes,
            )[a]) < (#[trigger] fresh_positions(data, nodes)[b]),
{
    let keep = |i: int| is_fresh(data, nodes[i]);
    lemma_positions(nodes.len(), keep);
    assert(fresh_positions(data, nodes) == positions(nodes.len(), keep));
    assert(positions(nodes.len(), keep).contains(position) <==> position < nodes.len() && keep(
        position as int,
    ));
}

} // verus!
