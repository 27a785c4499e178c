use std::collections::{HashMap, HashSet, VecDeque};
use std::time::Duration;
use xfwl4_udev::config::UdevConfig;
use xfwl4_udev::data::{
    BackendData, BackendType, DebugFlags, LeaseState, SurfaceData, UdevData, HAS_GESTURES,
    HAS_RELATIVE_MOTION,
};
use xfwl4_udev::dmabuf::{FeedbackRequest, Format};
use xfwl4_udev::frames::GpuRenderDuration;
use xfwl4_udev::node::{DrmNode, UdevOutputId};
use xfwl4_udev::outputs::RendererChoice;
use xfwl4_udev::session::SwitchedDevice;

const PRIMARY: DrmNode = DrmNode { dev_id: 0xe280 };
const SECOND: DrmNode = DrmNode { dev_id: 0xe281 };

fn config() -> UdevConfig {
    UdevConfig {
        drm_device: None,
        disable_gles_instancing: false,
        disable_10bit_color: true,
        disable_direct_scanout: false,
    }
}

fn surface(output: u64, drm_output: Option<u32>, render_node: Option<DrmNode>) -> SurfaceData {
    SurfaceData {
        output,
        drm_output,
        render_node,
        dmabuf_feedback: false,
        repaint_timeout: None,
        render_durations: VecDeque::new(),
    }
}

fn id(device_id: DrmNode, crtc: u32) -> UdevOutputId {
    UdevOutputId { device_id, crtc }
}

/// The primary GPU with two surfaces, and a second device with one.
fn data() -> UdevData {
    let mut data = UdevData::new(&config(), PRIMARY);
    let mut surfaces = HashMap::new();
    surfaces.insert(41, surface(1, Some(875713112), None));
    surfaces.insert(42, surface(2, None, None));
    data.backends.insert(
        PRIMARY.dev_id,
        BackendData {
            surfaces,
            paused: false,
            active_leases: vec![3, 4],
            leasing_global: Some(LeaseState::Running),
        },
    );
    let mut surfaces = HashMap::new();
    surfaces.insert(41, surface(3, Some(875713089), Some(SECOND)));
    data.backends.insert(
        SECOND.dev_id,
        BackendData { surfaces, paused: false, active_leases: vec![], leasing_global: None },
    );
    data
}

fn set(ids: Vec<UdevOutputId>) -> HashSet<UdevOutputId> {
    let n = ids.len();
    let set: HashSet<UdevOutputId> = ids.into_iter().collect();
    assert_eq!(set.len(), n);
    set
}

#[test]
fn new_backend_is_empty() {
    let data = UdevData::new(&config(), PRIMARY);
    assert_eq!(data.primary_gpu, PRIMARY);
    assert!(data.backends.is_empty());
    assert_eq!(data.debug_flags(), DebugFlags::empty());
    assert!(!data.dmabuf_state);
    assert!(!data.syncobj_state);
    assert!(data.disable_10bit_color);
    assert!(!data.disable_direct_scanout);
}

#[test]
fn backend_is_a_tty() {
    assert_eq!(data().backend_type(), BackendType::Tty);
    assert!(HAS_RELATIVE_MOTION);
    assert!(HAS_GESTURES);
}

#[test]
fn surfaces_are_listed_once() {
    let expected: HashSet<UdevOutputId> =
        vec![id(PRIMARY, 41), id(PRIMARY, 42), id(SECOND, 41)].into_iter().collect();
    assert_eq!(set(data().surface_ids()), expected);
}

#[test]
fn surfaces_are_looked_up() {
    let mut data = data();
    assert_eq!(data.surface(id(PRIMARY, 42)).unwrap().output, 2);
    assert!(data.surface(id(SECOND, 42)).is_none());
    assert!(data.surface(id(DrmNode { dev_id: 7 }, 41)).is_none());
    assert!(data.surface_mut(id(SECOND, 42)).is_none());
    assert!(data.backend_mut(7).is_none());
    data.surface_mut(id(SECOND, 41)).unwrap().output = 9;
    assert_eq!(data.surface(id(SECOND, 41)).unwrap().output, 9);
    assert_eq!(data.surface(id(PRIMARY, 41)).unwrap().output, 1);
}

#[test]
fn debug_flags_reach_drm_outputs() {
    let mut data = data();
    let tint = DebugFlags { bits: 1 };
    let expected: HashSet<UdevOutputId> =
        vec![id(PRIMARY, 41), id(SECOND, 41)].into_iter().collect();
    assert_eq!(set(data.set_debug_flags(tint)), expected);
    assert_eq!(data.debug_flags(), tint);
}

#[test]
fn same_debug_flags_reach_nothing() {
    let mut data = data();
    assert!(data.set_debug_flags(DebugFlags::empty()).is_empty());
    let tint = DebugFlags { bits: 1 };
    assert_eq!(data.set_debug_flags(tint).len(), 2);
    assert!(data.set_debug_flags(tint).is_empty());
    assert_eq!(data.debug_flags(), tint);
    assert_eq!(data.set_debug_flags(DebugFlags::empty()).len(), 2);
    assert_eq!(data.debug_flags().bits, 0);
}

#[test]
fn buffers_of_drm_outputs_are_reset() {
    let data = data();
    assert_eq!(data.reset_buffers(Some(id(PRIMARY, 41))), Some(id(PRIMARY, 41)));
    assert_eq!(data.reset_buffers(Some(id(PRIMARY, 42))), None);
    assert_eq!(data.reset_buffers(Some(id(PRIMARY, 43))), None);
    assert_eq!(data.reset_buffers(Some(id(DrmNode { dev_id: 7 }, 41))), None);
    assert_eq!(data.reset_buffers(None), None);
}

#[test]
fn renderer_defaults_to_primary_gpu() {
    assert_eq!(data().renderer(None), PRIMARY);
    assert_eq!(data().renderer(Some(SECOND)), SECOND);
}

#[test]
fn renderer_of_an_output() {
    let mut data = data();
    assert_eq!(data.renderer_for_output(1), RendererChoice::Single(PRIMARY));
    assert_eq!(
        data.renderer_for_output(3),
        RendererChoice::Copying { render: PRIMARY, target: SECOND, format: 875713089 }
    );
    // No DRM output, and no surface at all.
    assert_eq!(data.renderer_for_output(2), RendererChoice::Single(PRIMARY));
    assert_eq!(data.renderer_for_output(8), RendererChoice::Single(PRIMARY));
    data.surface_mut(id(SECOND, 41)).unwrap().render_node = Some(PRIMARY);
    assert_eq!(data.renderer_for_output(3), RendererChoice::Single(PRIMARY));
}

#[test]
fn constraints_group_formats_by_code() {
    let formats = vec![
        Format { code: 10, modifier: 0 },
        Format { code: 20, modifier: 7 },
        Format { code: 10, modifier: 9 },
        Format { code: 10, modifier: 3 },
    ];
    let mut constraints = data().dmabuf_constraints(Some(SECOND), Some(&formats)).unwrap();
    assert_eq!(constraints.node, SECOND);
    constraints.formats.sort();
    assert_eq!(constraints.formats, vec![(10, vec![0, 9, 3]), (20, vec![7])]);
}

#[test]
fn constraints_default_to_primary_gpu() {
    let constraints = data().dmabuf_constraints(None, Some(&vec![])).unwrap();
    assert_eq!(constraints.node, PRIMARY);
    assert!(constraints.formats.is_empty());
}

#[test]
fn no_constraints_without_formats() {
    assert!(data().dmabuf_constraints(None, None).is_none());
}

#[test]
fn feedback_is_asked_for_once() {
    let mut data = data();
    let mut pending = data.pending_feedback();
    pending.sort_by_key(|request| request.id.device_id.dev_id);
    assert_eq!(
        pending,
        vec![
            FeedbackRequest { id: id(PRIMARY, 41), render_node: None },
            FeedbackRequest { id: id(SECOND, 41), render_node: Some(SECOND) },
        ]
    );
    data.store_feedback(id(PRIMARY, 41), true);
    data.store_feedback(id(SECOND, 41), false);
    assert_eq!(
        data.pending_feedback(),
        vec![FeedbackRequest { id: id(SECOND, 41), render_node: Some(SECOND) }]
    );
    // What is there stays.
    data.store_feedback(id(PRIMARY, 41), false);
    assert!(data.surface(id(PRIMARY, 41)).unwrap().dmabuf_feedback);
    // No DRM output, no feedback.
    data.store_feedback(id(PRIMARY, 42), true);
    assert!(!data.surface(id(PRIMARY, 42)).unwrap().dmabuf_feedback);
}

#[test]
fn render_durations_slide() {
    let mut data = data();
    for ms in 1..6 {
        let duration = Duration::from_millis(ms);
        data.record_render_duration(GpuRenderDuration { node: PRIMARY, crtc: 41, duration }, 3);
    }
    let window: Vec<u128> = data
        .surface(id(PRIMARY, 41))
        .unwrap()
        .render_durations
        .iter()
        .map(|d| d.as_millis())
        .collect();
    assert_eq!(window, vec![3, 4, 5]);
    assert!(data.surface(id(SECOND, 41)).unwrap().render_durations.is_empty());
}

#[test]
fn render_durations_below_the_bound_all_stay() {
    let mut data = data();
    for ms in 1..3 {
        let duration = Duration::from_millis(ms);
        data.record_render_duration(GpuRenderDuration { node: SECOND, crtc: 41, duration }, 2);
    }
    assert_eq!(data.surface(id(SECOND, 41)).unwrap().render_durations.len(), 2);
    let duration = Duration::from_millis(9);
    data.record_render_duration(GpuRenderDuration { node: SECOND, crtc: 41, duration }, 0);
    assert_eq!(data.surface(id(SECOND, 41)).unwrap().render_durations.len(), 2);
}

#[test]
fn render_durations_of_lost_surfaces_are_dropped() {
    let mut data = data();
    let duration = Duration::from_millis(1);
    data.record_render_duration(GpuRenderDuration { node: PRIMARY, crtc: 9, duration }, 3);
    data.record_render_duration(
        GpuRenderDuration { node: DrmNode { dev_id: 7 }, crtc: 41, duration },
        3,
    );
    for surface in data.surface_ids() {
        assert!(data.surface(surface).unwrap().render_durations.is_empty());
    }
    assert_eq!(data.surface_ids().len(), 3);
}

#[test]
fn pausing_ends_leases() {
    let mut data = data();
    let mut devices = data.pause();
    devices.sort_by_key(|device| device.node.dev_id);
    assert_eq!(
        devices,
        vec![
            SwitchedDevice { node: PRIMARY, has_leases: true },
            SwitchedDevice { node: SECOND, has_leases: false },
        ]
    );
    let primary = &data.backends[&PRIMARY.dev_id];
    assert!(primary.paused);
    assert!(primary.active_leases.is_empty());
    assert_eq!(primary.leasing_global, Some(LeaseState::Suspended));
    let second = &data.backends[&SECOND.dev_id];
    assert!(second.paused);
    assert_eq!(second.leasing_global, None);
}

#[test]
fn activating_after_a_pause() {
    let mut data = data();
    data.pause();
    let activated = data.activate();
    assert_eq!(activated.devices.len(), 2);
    let expected: HashSet<UdevOutputId> =
        vec![id(PRIMARY, 41), id(PRIMARY, 42), id(SECOND, 41)].into_iter().collect();
    assert_eq!(set(activated.repaints), expected);
    let primary = &data.backends[&PRIMARY.dev_id];
    assert!(!primary.paused);
    assert!(primary.active_leases.is_empty());
    assert_eq!(primary.leasing_global, Some(LeaseState::Running));
    assert_eq!(data.surface_ids().len(), 3);
    assert_eq!(data.surface(id(PRIMARY, 41)).unwrap().output, 1);
}

#[test]
fn every_surface_is_repainted() {
    let mut data = data();
    data.pause();
    let repaints = data.activate().repaints;
    for (timer, surface) in repaints.iter().enumerate() {
        data.set_repaint_timeout(*surface, timer as u64);
    }
    for (timer, surface) in repaints.iter().enumerate() {
        let surface = data.surface(*surface).unwrap();
        assert_eq!(surface.repaint_timeout, Some(timer as u64));
    }
}

#[test]
fn repaint_timers_are_noted() {
    let mut data = data();
    data.set_repaint_timeout(id(PRIMARY, 42), 12);
    data.set_repaint_timeout(id(PRIMARY, 99), 13);
    assert_eq!(data.surface(id(PRIMARY, 42)).unwrap().repaint_timeout, Some(12));
    assert_eq!(data.surface(id(PRIMARY, 41)).unwrap().repaint_timeout, None);
    assert_eq!(data.surface_ids().len(), 3);
}

#[test]
fn devices_that_are_gone_are_stale() {
    let data = data();
    assert_eq!(data.stale_devices(&vec![PRIMARY.dev_id, 5]), vec![SECOND]);
    assert!(data.stale_devices(&vec![SECOND.dev_id, PRIMARY.dev_id]).is_empty());
    assert_eq!(data.stale_devices(&vec![]).len(), 2);
}

#[test]
fn devices_that_came_are_new() {
    let data = data();
    let third = DrmNode { dev_id: 0xe200 };
    let nodes = vec![Some(third), Some(PRIMARY), None, Some(SECOND), Some(third)];
    assert_eq!(data.new_devices(&nodes), vec![0, 4]);
    assert!(data.new_devices(&vec![]).is_empty());
}

#[test]
fn pausing_twice_is_pausing_once() {
    let mut data = data();
    data.pause();
    assert_eq!(data.pause().len(), 2);
    let primary = &data.backends[&PRIMARY.dev_id];
    assert!(primary.paused);
    assert!(primary.active_leases.is_empty());
    assert_eq!(primary.leasing_global, Some(LeaseState::Suspended));
}
